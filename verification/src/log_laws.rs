//! Laws of the log view: what a search finds, what a filter keeps, and what the window shows.

use crate::logs::{
    filter_is_complete, keeps, line_rows, rows_from, wrapped_text, LogModel,
};
use crate::model::{EntryModel, LogEntry, LogFilterMode};
use crate::pattern::{regex_error, regex_matches};
use crate::text::trimmed;
use crate::text_laws::{finding_is_splitting, holds, same_but_case, splits_round};
use vstd::prelude::*;

verus! {

// ---------------------------------------------------------------------------------------------
// Shown lines
// ---------------------------------------------------------------------------------------------

/// Where timestamps are shown, a line with a timestamp is shown with it and a space before the
/// message; otherwise the message alone is shown.
pub proof fn lines_are_shown_with_their_timestamps(entry: EntryModel, timestamp: Seq<char>)
    ensures
        entry.timestamp == Some(timestamp) ==> entry.shown(true) == timestamp + seq![' ']
            + entry.plain_message,
        entry.timestamp == Some(timestamp) ==> entry.shown_raw(true) == timestamp + seq![' ']
            + entry.message,
        entry.timestamp is None ==> entry.shown(true) == entry.plain_message,
        entry.timestamp is None ==> entry.shown_raw(true) == entry.message,
        entry.shown(false) == entry.plain_message,
        entry.shown_raw(false) == entry.message,
{
}

/// The text of every filtered line is the line as it is shown.
pub proof fn shown_lines_are_the_filtered_lines(view: LogModel, row: int)
    requires
        0 <= row < view.filtered().len(),
    ensures
        view.shown_lines().len() == view.filtered().len(),
        view.filtered()[row]@.timestamp is Some && view.show_timestamps ==> view.shown_lines()[row]
            == view.filtered()[row]@.timestamp->0 + seq![' ']
            + view.filtered()[row]@.plain_message,
        view.filtered()[row]@.timestamp is None || !view.show_timestamps
            ==> view.shown_lines()[row] == view.filtered()[row]@.plain_message,
{
}

// ---------------------------------------------------------------------------------------------
// Search
// ---------------------------------------------------------------------------------------------

/// A line is passed on the way from a line to another one: forward, or backward where `reverse`
/// is set, and round the end of the log where the other line is not ahead.
pub open spec fn is_passed(from: int, row: int, to: int, reverse: bool) -> bool {
    if reverse {
        if to < from {
            to < row < from
        } else {
            row < from || row > to
        }
    } else {
        if to > from {
            from < row < to
        } else {
            row > from || row < to
        }
    }
}

/// The number of steps from a line to another one.
spec fn steps_to(from: int, to: int, len: int, reverse: bool) -> int {
    if reverse {
        if to < from {
            from - to
        } else {
            from - to + len
        }
    } else {
        if to > from {
            to - from
        } else {
            to - from + len
        }
    }
}

/// The search goes on to the line that is some steps away, where no line before it is a hit.
proof fn steps_are_taken(view: LogModel, taken: int, steps: int, reverse: bool)
    requires
        1 <= taken <= steps <= view.filtered().len(),
        view.hit(view.row_after(steps, reverse)),
        forall|t: int| taken <= t < steps ==> !view.hit(#[trigger] view.row_after(t, reverse)),
    ensures
        view.first_hit(taken, reverse) == Some(view.row_after(steps, reverse)),
    decreases steps - taken,
{
    if taken < steps {
        assert(!view.hit(view.row_after(taken, reverse)));
        steps_are_taken(view, taken + 1, steps, reverse);
    }
}

/// The search finds nothing where no line is a hit.
proof fn no_steps_are_taken(view: LogModel, taken: int, reverse: bool)
    requires
        1 <= taken,
        view.filtered().len() > 0,
        view.selected >= 0,
        forall|row: int| 0 <= row < view.filtered().len() ==> !#[trigger] view.hit(row),
    ensures
        view.first_hit(taken, reverse) is None,
    decreases view.filtered().len() + 1 - taken,
{
    if taken <= view.filtered().len() {
        assert(!view.hit(view.row_after(taken, reverse)));
        no_steps_are_taken(view, taken + 1, reverse);
    }
}

/// A search selects the nearest line, in its direction, whose shown text is some text, the
/// searched text in any case, and some text: the lines that are passed on the way have no such
/// split. The end is then no longer followed and no range is selected; nothing else changes.
pub proof fn search_selects_the_nearest_line(
    view: LogModel,
    reverse: bool,
    row: int,
    before: Seq<char>,
    middle: Seq<char>,
    behind: Seq<char>,
)
    requires
        view.selected >= 0,
        0 <= row < view.filtered().len(),
        trimmed(view.search_query).len() > 0,
        view.shown_lines()[row] == before + middle + behind,
        same_but_case(middle, trimmed(view.search_query)),
        forall|other: int, a: Seq<char>, m: Seq<char>, b: Seq<char>|
            0 <= other < view.filtered().len() && is_passed(
                if view.selected < view.filtered().len() {
                    view.selected
                } else {
                    view.filtered().len() - 1
                },
                other,
                row,
                reverse,
            ) ==> !#[trigger] splits_round(
                view.shown_lines()[other],
                a,
                m,
                b,
                trimmed(view.search_query),
            ),
    ensures
        view.searched(reverse) == (LogModel {
            selected: row,
            follow: false,
            selection_anchor: None,
            selection_end: None,
            drag_active: false,
            ..view
        }),
{
    let len = view.filtered().len() as int;
    let from = if view.selected < len {
        view.selected
    } else {
        len - 1
    };
    let needle = trimmed(view.search_query);
    let steps = steps_to(from, row, len, reverse);
    assert(view.row_after(steps, reverse) == row);
    assert(view.shown_lines()[row] == view.filtered()[row]@.shown(view.show_timestamps));
    finding_is_splitting(view.shown_lines()[row], needle);
    assert(splits_round(
        view.shown_lines()[row],
        before,
        middle,
        behind,
        needle,
    ));
    assert(view.hit(row));
    assert forall|t: int| 1 <= t < steps implies !view.hit(#[trigger] view.row_after(t, reverse)) by {
        let other = view.row_after(t, reverse);
        assert(0 <= other < len);
        assert(is_passed(from, other, row, reverse));
        assert(view.shown_lines()[other] == view.filtered()[other]@.shown(view.show_timestamps));
        finding_is_splitting(view.shown_lines()[other], needle);
        if view.hit(other) {
            let (a, m, b) = choose|a: Seq<char>, m: Seq<char>, b: Seq<char>|
                splits_round(view.shown_lines()[other], a, m, b, needle);
            assert(splits_round(view.shown_lines()[other], a, m, b, needle));
        }
    }
    steps_are_taken(view, 1, steps, reverse);
}

/// A search for another text looks forward from the selected line for that text.
pub proof fn a_new_search_looks_forward(
    view: LogModel,
    query: Seq<char>,
    row: int,
    before: Seq<char>,
    middle: Seq<char>,
    behind: Seq<char>,
)
    requires
        0 <= view.selected < view.filtered().len(),
        0 <= row < view.filtered().len(),
        trimmed(query).len() > 0,
        view.shown_lines()[row] == before + middle + behind,
        same_but_case(middle, trimmed(query)),
        forall|other: int, a: Seq<char>, m: Seq<char>, b: Seq<char>|
            0 <= other < view.filtered().len() && is_passed(view.selected, other, row, false)
                ==> !#[trigger] splits_round(view.shown_lines()[other], a, m, b, trimmed(query)),
    ensures
        view.with_search(query).selected == row,
        view.with_search(query).search_query == query,
{
    let asked = LogModel { search_query: query, ..view };
    assert(asked.filtered() == view.filtered());
    assert(asked.shown_lines() =~= view.shown_lines());
    search_selects_the_nearest_line(asked, false, row, before, middle, behind);
}

/// A search for a text that no line holds, or for a blank one, changes nothing.
pub proof fn a_vain_search_changes_nothing(view: LogModel, reverse: bool)
    requires
        view.selected >= 0,
        trimmed(view.search_query).len() == 0 || forall|row: int|
            0 <= row < view.filtered().len() ==> !holds(
                #[trigger] view.shown_lines()[row],
                trimmed(view.search_query),
            ),
    ensures
        view.searched(reverse) == view,
{
    if trimmed(view.search_query).len() > 0 && view.filtered().len() > 0 {
        assert forall|row: int| 0 <= row < view.filtered().len() implies !#[trigger] view.hit(
            row,
        ) by {
            finding_is_splitting(view.shown_lines()[row], trimmed(view.search_query));
            assert(view.shown_lines()[row] == view.filtered()[row]@.shown(view.show_timestamps));
        }
        no_steps_are_taken(view, 1, reverse);
    }
}

// ---------------------------------------------------------------------------------------------
// The filter
// ---------------------------------------------------------------------------------------------

/// A line of the log is among the filtered ones exactly if the filter is blank, or if the shown
/// line holds the text of the filter in any case, or, where the filter is read as a regular
/// expression, if it is one and matches the shown line.
pub proof fn the_filter_keeps_what_holds_its_text(view: LogModel, entry: LogEntry)
    requires
        view.entries.contains(entry),
    ensures
        trimmed(view.filter_query).len() == 0 ==> view.filtered().contains(entry),
        trimmed(view.filter_query).len() > 0 && view.filter_mode == LogFilterMode::Substring ==> (
        view.filtered().contains(entry) <==> holds(
            entry@.shown(view.show_timestamps),
            trimmed(view.filter_query),
        )),
        trimmed(view.filter_query).len() > 0 && view.filter_mode == LogFilterMode::Regex ==> (
        view.filtered().contains(entry) <==> regex_error(trimmed(view.filter_query)) is None
            && regex_matches(
            trimmed(view.filter_query),
            entry@.shown(view.show_timestamps),
        )),
{
    filter_is_complete(view, entry);
    finding_is_splitting(entry@.shown(view.show_timestamps), trimmed(view.filter_query));
}

/// Filtering keeps the order: lines that come later are filtered later.
pub proof fn the_filter_keeps_the_order(view: LogModel, entries: Seq<LogEntry>, entry: LogEntry)
    requires
        view.entries == entries.push(entry),
    ensures
        keeps(view.filter_mode, view.filter_query, view.show_timestamps, entry)
            ==> view.filtered() == (LogModel { entries, ..view }).filtered().push(entry),
        !keeps(view.filter_mode, view.filter_query, view.show_timestamps, entry)
            ==> view.filtered() == (LogModel { entries, ..view }).filtered(),
{
    reveal(Seq::filter);
    assert(entries.push(entry).drop_last() =~= entries);
}

/// A blank filter keeps every line.
pub proof fn a_blank_filter_keeps_all(view: LogModel)
    requires
        trimmed(view.filter_query).len() == 0,
    ensures
        view.filtered() == view.entries,
    decreases view.entries.len(),
{
    reveal(Seq::filter);
    if view.entries.len() > 0 {
        let shorter = LogModel { entries: view.entries.drop_last(), ..view };
        a_blank_filter_keeps_all(shorter);
        assert(view.entries =~= view.entries.drop_last().push(view.entries.last()));
    } else {
        assert(view.filtered() =~= view.entries);
    }
}

// ---------------------------------------------------------------------------------------------
// The window
// ---------------------------------------------------------------------------------------------

/// The rows that the lines from one up to another one take when they are wrapped.
pub open spec fn rows_taken(lines: Seq<Seq<char>>, from: int, upto: int, width: usize) -> int
    decreases upto - from,
{
    if upto <= from {
        0
    } else {
        rows_taken(lines, from, upto - 1, width) + wrapped_text(lines[upto - 1], width).len()
    }
}

/// The rows of a line stand behind those of the lines before it.
proof fn first_rows_come_first(lines: Seq<Seq<char>>, from: int, upto: int, width: usize)
    requires
        0 <= from < upto,
    ensures
        rows_taken(lines, from, upto, width) == wrapped_text(lines[from], width).len()
            + rows_taken(lines, from + 1, upto, width),
    decreases upto - from,
{
    if from + 1 < upto {
        first_rows_come_first(lines, from, upto - 1, width);
    } else {
        assert(rows_taken(lines, from, from, width) == 0);
    }
}

/// Rows are never taken back.
proof fn rows_taken_grow(lines: Seq<Seq<char>>, from: int, upto: int, width: usize)
    ensures
        rows_taken(lines, from, upto, width) >= 0,
    decreases upto - from,
{
    if from < upto {
        rows_taken_grow(lines, from, upto - 1, width);
    }
}

/// The rows of wrapped lines are the texts that each shown line is broken into.
proof fn wrapped_rows_from(view: LogModel, from: int, line: int, part: int, width: usize)
    requires
        0 <= from <= line < view.filtered().len(),
        0 <= part < wrapped_text(view.shown_lines()[line], width).len(),
    ensures
        ({
            let rows = rows_from(view.filtered(), from, view.show_timestamps, true, width);
            let at = rows_taken(view.shown_lines(), from, line, width) + part;
            &&& rows.len() == rows_taken(
                view.shown_lines(),
                from,
                view.filtered().len() as int,
                width,
            )
            &&& 0 <= at < rows.len()
            &&& rows[at] == (line, wrapped_text(view.shown_lines()[line], width)[part])
        }),
    decreases line - from,
{
    let lines = view.shown_lines();
    let len = view.filtered().len() as int;
    let rows = rows_from(view.filtered(), from, view.show_timestamps, true, width);
    let rest = rows_from(view.filtered(), from + 1, view.show_timestamps, true, width);
    let own = wrapped_text(lines[from], width);
    assert(lines[from] == view.filtered()[from]@.shown(view.show_timestamps));
    assert(rows == line_rows(from, own) + rest);
    wrapped_rows_count(view, from, width);
    wrapped_rows_count(view, from + 1, width);
    first_rows_come_first(lines, from, len, width);
    rows_taken_grow(lines, from, line, width);
    if line == from {
        assert(rows[part] == (from, own[part]));
        rows_taken_grow(lines, from + 1, len, width);
    } else {
        wrapped_rows_from(view, from + 1, line, part, width);
        first_rows_come_first(lines, from, line, width);
    }
}

/// The wrapped lines from one on take as many rows as each of them takes.
proof fn wrapped_rows_count(view: LogModel, from: int, width: usize)
    requires
        0 <= from <= view.filtered().len(),
    ensures
        rows_from(view.filtered(), from, view.show_timestamps, true, width).len() == rows_taken(
            view.shown_lines(),
            from,
            view.filtered().len() as int,
            width,
        ),
    decreases view.filtered().len() - from,
{
    if from < view.filtered().len() {
        wrapped_rows_count(view, from + 1, width);
        first_rows_come_first(view.shown_lines(), from, view.filtered().len() as int, width);
        assert(view.shown_lines()[from] == view.filtered()[from]@.shown(view.show_timestamps));
    }
}

/// With wrapping, the window shows the filtered lines from its top on, each broken as
/// `textwrap::wrap` breaks the line as it is shown, with its timestamp where timestamps are shown,
/// and each row with the index of its line; as many rows as the window has, or as there are.
pub proof fn wrapped_rows_are_the_broken_lines(
    view: LogModel,
    height: int,
    width: usize,
    line: int,
    part: int,
)
    requires
        view.wrap,
        width >= 1,
        height >= 0,
        0 <= view.scroll_top <= line < view.filtered().len(),
        0 <= part < wrapped_text(view.shown_lines()[line], width).len(),
    ensures
        ({
            let all = rows_taken(
                view.shown_lines(),
                view.scroll_top,
                view.filtered().len() as int,
                width,
            );
            let at = rows_taken(view.shown_lines(), view.scroll_top, line, width) + part;
            let rows = view.visible(height, width as int);
            &&& rows.len() == if all <= height {
                all
            } else {
                height
            }
            &&& 0 <= at < all
            &&& at < height ==> rows[at] == (
                line,
                wrapped_text(view.shown_lines()[line], width)[part],
            )
        }),
{
    wrapped_rows_from(view, view.scroll_top, line, part, width);
}

// ---------------------------------------------------------------------------------------------
// Moving
// ---------------------------------------------------------------------------------------------

/// Moving the selection by some lines goes so far, or to the end of the log that is nearer; at
/// the last line the end is followed, and nowhere else.
pub proof fn the_selection_moves_by_lines(view: LogModel, delta: int)
    requires
        0 <= view.selected < view.filtered().len(),
    ensures
        0 <= view.selected + delta < view.filtered().len() ==> view.moved_by(delta).selected
            == view.selected + delta,
        view.selected + delta < 0 ==> view.moved_by(delta).selected == 0,
        view.selected + delta >= view.filtered().len() ==> view.moved_by(delta).selected
            == view.filtered().len() - 1,
        view.moved_by(delta).follow <==> view.moved_by(delta).selected == view.filtered().len()
            - 1,
        view.moved_by(delta).selection_anchor is None,
        view.moved_by(delta).entries == view.entries,
        view.moved_by(delta).filtered() == view.filtered(),
{
}

/// Home selects the first line and no longer follows the end; End selects the last line and
/// follows it.
pub proof fn the_edges_are_reached(view: LogModel)
    requires
        view.filtered().len() > 0,
    ensures
        view.at_edge(false).selected == 0 && !view.at_edge(false).follow,
        view.at_edge(true).selected == view.filtered().len() - 1 && view.at_edge(true).follow,
        view.at_edge(true).entries == view.entries && view.at_edge(false).entries == view.entries,
{
}

/// Following the end selects the last line; to follow it no longer keeps the selection.
pub proof fn following_selects_the_last_line(view: LogModel)
    requires
        view.filtered().len() > 0,
    ensures
        view.follow_toggled().follow == !view.follow,
        !view.follow ==> view.follow_toggled().selected == view.filtered().len() - 1,
        view.follow ==> view.follow_toggled().selected == view.selected,
        view.follow_toggled().entries == view.entries,
{
}

/// Lines that come leave the lines before them in their order; where the end is not followed and
/// nothing has to go, the selection stays.
pub proof fn lines_come_at_the_end(view: LogModel, more: Seq<LogEntry>)
    requires
        view.entries.len() + more.len() <= view.max_entries,
        0 <= view.selected < view.filtered().len(),
    ensures
        view.appended(more).entries == view.entries + more,
        !view.follow ==> view.appended(more).selected == view.selected,
        view.follow && more.len() > 0 ==> view.appended(more).selected == view.appended(
            more,
        ).filtered().len() - 1,
        view.appended(more).follow == view.follow,
        view.appended(more).container_id == view.container_id,
{
    let grown = LogModel { entries: view.entries + more, ..view };
    let keep = |line: LogEntry|
        keeps(view.filter_mode, view.filter_query, view.show_timestamps, line);
    Seq::filter_distributes_over_add(view.entries, more, keep);
    assert(grown.filtered() == view.entries.filter(keep) + more.filter(keep));
    if more.len() == 0 {
        assert(view.entries + more =~= view.entries);
    }
}

/// A new filter selects the last line that it keeps, and a line that it keeps stays.
pub proof fn a_new_filter_selects_the_last_line(view: LogModel, query: Seq<char>)
    ensures
        view.with_filter(query).filter_query == query,
        view.with_filter(query).entries == view.entries,
        view.with_filter(query).filtered().len() > 0 ==> view.with_filter(query).selected
            == view.with_filter(query).filtered().len() - 1,
        view.with_filter(query).filtered() == (LogModel { filter_query: query, ..view }).filtered(),
        view.with_filter(query).search_query == view.search_query,
{
}

/// Without a range, the selected line is copied as it is shown.
pub proof fn the_selected_line_is_copied(view: LogModel)
    requires
        0 <= view.selected < view.filtered().len(),
        view.selection_anchor is None || view.selection_end is None,
    ensures
        view.copied_text() == Some(view.shown_lines()[view.selected]),
{
}

/// Nothing is copied where no line is listed, and something is where one is.
pub proof fn an_empty_log_has_nothing_to_copy(view: LogModel)
    ensures
        view.copied_text() is None <==> view.filtered().len() == 0,
{
}

/// The log of another container begins empty, loads, and follows its end; how it is looked at
/// stays.
pub proof fn another_log_begins_empty(view: LogModel, id: Seq<char>)
    ensures
        view.loading_for(Some(id)).container_id == Some(id),
        view.loading_for(Some(id)).entries.len() == 0,
        view.loading_for(Some(id)).loading,
        view.loading_for(Some(id)).follow,
        view.loading_for(Some(id)).selected == 0,
        view.loading_for(Some(id)).filter_query == view.filter_query,
        view.loading_for(Some(id)).search_query == view.search_query,
        view.loading_for(Some(id)).filter_mode == view.filter_mode,
        view.loading_for(Some(id)).wrap == view.wrap,
        view.loading_for(Some(id)).show_timestamps == view.show_timestamps,
        view.loading_for(Some(id)).max_entries == view.max_entries,
        !view.loading_for(None).loading,
        view.loading_for(None).container_id is None,
{
}

} // verus!
