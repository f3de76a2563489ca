//! The log view: the lines of one container, filtered, searched, scrolled and selected.

use crate::layout::{scroll_offset_for_selection, selection_is_in_the_window, window_for};
use crate::model::{LogEntry, LogFilterMode};
use crate::pattern::{compile, regex_error, regex_matches};
use crate::text::{
    contains_ignoring_case, copied, is_blank, join, joined, lowered, occurs, text_of, texts, trim,
    trimmed,
};
use vstd::prelude::*;

verus! {

/// A row of the log view: which of the filtered lines it belongs to, and its text.
#[derive(Clone, Debug, PartialEq, Eq)]
pub struct VisibleLogRow {
    pub entry_index: usize,
    pub text: String,
}

impl View for VisibleLogRow {
    type V = (int, Seq<char>);

    open spec fn view(&self) -> (int, Seq<char>) {
        (self.entry_index as int, self.text@)
    }
}

/// What some rows of the log view say.
pub open spec fn row_models(rows: Seq<VisibleLogRow>) -> Seq<(int, Seq<char>)> {
    rows.map_values(|row: VisibleLogRow| row@)
}

/// The lines of one container's log, and how they are looked at.
pub struct LogView {
    pub container_id: Option<String>,
    pub entries: Vec<LogEntry>,
    pub loading: bool,
    pub filter_query: String,
    pub search_query: String,
    pub filter_mode: LogFilterMode,
    pub follow: bool,
    pub wrap: bool,
    pub show_timestamps: bool,
    pub selected: usize,
    pub max_entries: usize,
    pub scroll_top: usize,
    pub selection_anchor: Option<usize>,
    pub selection_end: Option<usize>,
    pub drag_active: bool,
}

/// The state of a log view.
#[verifier::ext_equal]
pub struct LogModel {
    pub container_id: Option<Seq<char>>,
    pub entries: Seq<LogEntry>,
    pub loading: bool,
    pub filter_query: Seq<char>,
    pub search_query: Seq<char>,
    pub filter_mode: LogFilterMode,
    pub follow: bool,
    pub wrap: bool,
    pub show_timestamps: bool,
    pub selected: int,
    pub max_entries: int,
    pub scroll_top: int,
    pub selection_anchor: Option<int>,
    pub selection_end: Option<int>,
    pub drag_active: bool,
}

/// An optional number.
pub open spec fn number_of(value: Option<usize>) -> Option<int> {
    match value {
        Some(n) => Some(n as int),
        None => None,
    }
}

impl View for LogView {
    type V = LogModel;

    open spec fn view(&self) -> LogModel {
        LogModel {
            container_id: text_of(self.container_id),
            entries: self.entries@,
            loading: self.loading,
            filter_query: self.filter_query@,
            search_query: self.search_query@,
            filter_mode: self.filter_mode,
            follow: self.follow,
            wrap: self.wrap,
            show_timestamps: self.show_timestamps,
            selected: self.selected as int,
            max_entries: self.max_entries as int,
            scroll_top: self.scroll_top as int,
            selection_anchor: number_of(self.selection_anchor),
            selection_end: number_of(self.selection_end),
            drag_active: self.drag_active,
        }
    }
}

// ---------------------------------------------------------------------------------------------
// The filter
// ---------------------------------------------------------------------------------------------

/// A line passes a trimmed query: the query is empty, or it occurs in the line whatever the case
/// of ASCII letters, or it matches the line as a regular expression. What the regular expression
/// says of the line is given; nothing is, where there is none.
pub open spec fn passes_query(
    mode: LogFilterMode,
    query: Seq<char>,
    shown: Seq<char>,
    matched: Option<bool>,
) -> bool {
    query.len() == 0 || match mode {
        LogFilterMode::Substring => occurs(lowered(shown), lowered(query)),
        LogFilterMode::Regex => matched == Some(true),
    }
}

/// What a regular expression says of a line, where it is one.
pub open spec fn regex_verdict(pattern: Seq<char>, shown: Seq<char>) -> Option<bool> {
    if regex_error(pattern) is None {
        Some(regex_matches(pattern, shown))
    } else {
        None
    }
}

/// A line is kept by a filter.
pub open spec fn keeps(
    mode: LogFilterMode,
    query: Seq<char>,
    show_timestamps: bool,
    entry: LogEntry,
) -> bool {
    let shown = entry@.shown(show_timestamps);
    passes_query(mode, trimmed(query), shown, regex_verdict(trimmed(query), shown))
}

/// The lines that a filter keeps, in their order.
pub open spec fn kept(
    entries: Seq<LogEntry>,
    mode: LogFilterMode,
    query: Seq<char>,
    show_timestamps: bool,
) -> Seq<LogEntry> {
    entries.filter(|entry: LogEntry| keeps(mode, query, show_timestamps, entry))
}

/// Whether a line passes a trimmed query, given what the query says of it as a regular
/// expression.
pub fn passes_filter(
    mode: LogFilterMode,
    query: &str,
    shown: &str,
    matched: Option<bool>,
) -> (b: bool)
    ensures
        b == passes_query(mode, query@, shown@, matched),
{
    if query.is_empty() {
        return true;
    }
    match mode {
        LogFilterMode::Substring => contains_ignoring_case(shown, query),
        LogFilterMode::Regex => match matched {
            Some(found) => found,
            None => false,
        },
    }
}

// ---------------------------------------------------------------------------------------------
// Wrapped lines
// ---------------------------------------------------------------------------------------------

/// The lines into which `textwrap::wrap` breaks a text.
pub uninterp spec fn wrapped_text(text: Seq<char>, width: usize) -> Seq<Seq<char>>;

/// `textwrap::wrap` breaks a text into lines of at most a width of columns where it can. The
/// lines depend on the text and the width alone; where it breaks is left to its rules.
#[verifier::external_body]
fn wrap_text(text: &str, width: usize) -> (lines: Vec<String>)
    ensures
        texts(lines@) == wrapped_text(text@, width),
{
    textwrap::wrap(text, width).into_iter().map(|line| line.into_owned()).collect()
}

/// The rows of one line, from the texts that it is broken into.
pub open spec fn line_rows(index: int, lines: Seq<Seq<char>>) -> Seq<(int, Seq<char>)> {
    lines.map_values(|line: Seq<char>| (index, line))
}

/// The texts of a shown line: the line itself, or the lines that it is broken into.
pub open spec fn line_texts(shown: Seq<char>, wrap: bool, width: usize) -> Seq<Seq<char>> {
    if wrap {
        wrapped_text(shown, width)
    } else {
        seq![shown]
    }
}

/// The rows of the lines from one on.
pub open spec fn rows_from(
    entries: Seq<LogEntry>,
    index: int,
    show_timestamps: bool,
    wrap: bool,
    width: usize,
) -> Seq<(int, Seq<char>)>
    decreases entries.len() - index,
{
    if index < 0 || index >= entries.len() {
        Seq::empty()
    } else {
        line_rows(index, line_texts(entries[index]@.shown(show_timestamps), wrap, width))
            + rows_from(entries, index + 1, show_timestamps, wrap, width)
    }
}

/// As many of the first elements as there are, but no more than a number.
pub open spec fn at_most<T>(items: Seq<T>, count: int) -> Seq<T> {
    if items.len() <= count {
        items
    } else {
        items.take(count)
    }
}

/// Adds the rows of one line, as far as there is room for them.
pub fn push_rows(
    rows: &mut Vec<VisibleLogRow>,
    entry_index: usize,
    lines: Vec<String>,
    height: usize,
)
    requires
        old(rows)@.len() <= height,
    ensures
        row_models(final(rows)@) == at_most(
            row_models(old(rows)@) + line_rows(entry_index as int, texts(lines@)),
            height as int,
        ),
{
    let ghost before = row_models(rows@);
    let ghost given = line_rows(entry_index as int, texts(lines@));
    let total: usize = lines.len();
    let mut i: usize = 0;
    proof {
        assert(before + given.take(0) =~= before);
    }
    while i < total && rows.len() < height
        invariant
            i <= total == lines@.len(),
            rows@.len() <= height,
            given == line_rows(entry_index as int, texts(lines@)),
            row_models(rows@) == before + given.take(i as int),
        decreases total - i,
    {
        let ghost earlier = rows@;
        let text = copied(lines[i].as_str());
        rows.push(VisibleLogRow { entry_index, text });
        proof {
            assert(row_models(rows@) =~= row_models(earlier).push((entry_index as int, text@)));
            assert(given[i as int] == (entry_index as int, lines@[i as int]@));
            assert(given.take(i + 1) =~= given.take(i as int).push(given[i as int]));
        }
        i += 1;
    }
    proof {
        assert(given.len() == total);
        if i < total {
            assert((before + given).take(height as int) =~= before + given.take(i as int));
        } else {
            assert(given.take(i as int) =~= given);
        }
    }
}

// ---------------------------------------------------------------------------------------------
// The changes of a log view
// ---------------------------------------------------------------------------------------------

/// A number brought between zero and a limit.
pub open spec fn between(n: int, limit: int) -> int {
    if n < 0 {
        0
    } else if n > limit {
        limit
    } else {
        n
    }
}

/// The last index of a list, or zero where it is empty.
pub open spec fn last_index(len: nat) -> int {
    if len == 0 {
        0
    } else {
        len - 1
    }
}

/// The smaller of two numbers.
pub open spec fn lesser(a: int, b: int) -> int {
    if a <= b {
        a
    } else {
        b
    }
}

/// An index moved by a number, brought between zero and a limit.
pub fn shifted(index: usize, delta: isize, limit: usize) -> (result: usize)
    ensures
        result == between(index + delta, limit as int),
{
    let moved: usize = if delta >= 0 {
        index.saturating_add(delta as usize)
    } else {
        let back: usize = (-(delta + 1)) as usize;
        index.saturating_sub(back).saturating_sub(1)
    };
    if moved <= limit {
        moved
    } else {
        limit
    }
}

/// The last index of a list of some length, or zero where it is empty.
pub fn last_of(len: usize) -> (index: usize)
    ensures
        index == last_index(len as nat),
{
    if len == 0 {
        0
    } else {
        len - 1
    }
}

impl LogModel {
    /// The lines that the filter keeps.
    pub open spec fn filtered(self) -> Seq<LogEntry> {
        kept(self.entries, self.filter_mode, self.filter_query, self.show_timestamps)
    }

    /// The index of the last filtered line.
    pub open spec fn last_row(self) -> int {
        last_index(self.filtered().len())
    }

    /// Nothing of a container is left.
    pub open spec fn cleared(self) -> LogModel {
        LogModel {
            container_id: None,
            entries: Seq::empty(),
            loading: false,
            selected: 0,
            scroll_top: 0,
            selection_anchor: None,
            selection_end: None,
            drag_active: false,
            ..self
        }
    }

    /// The lines of a container are expected.
    pub open spec fn loading_for(self, container_id: Option<Seq<char>>) -> LogModel {
        LogModel {
            container_id,
            loading: container_id is Some,
            follow: true,
            ..self.cleared()
        }
    }

    /// All expected lines have come.
    pub open spec fn loaded(self) -> LogModel {
        LogModel { loading: false, ..self }
    }

    /// No range of lines is selected.
    pub open spec fn deselected(self) -> LogModel {
        LogModel { selection_anchor: None, selection_end: None, drag_active: false, ..self }
    }

    /// Lines have come: the oldest go where there would be too many, and the selection stays in
    /// range, at the end where the end is followed.
    pub open spec fn appended(self, more: Seq<LogEntry>) -> LogModel {
        if more.len() == 0 {
            self
        } else {
            let all = self.entries + more;
            let rest = if all.len() > self.max_entries {
                all.skip(all.len() - self.max_entries)
            } else {
                all
            };
            let grown = LogModel { entries: rest, ..self };
            LogModel {
                selected: if self.follow {
                    grown.last_row()
                } else {
                    lesser(self.selected, grown.last_row())
                },
                ..grown
            }
        }
    }

    /// The selection moves by some lines; at the last line the end is followed.
    pub open spec fn moved_by(self, delta: int) -> LogModel {
        if self.filtered().len() == 0 {
            LogModel { selected: 0, ..self }
        } else {
            let selected = between(self.selected + delta, self.last_row());
            LogModel { selected, follow: selected == self.last_row(), ..self.deselected() }
        }
    }

    /// The selection moves to the first or the last line.
    pub open spec fn at_edge(self, end: bool) -> LogModel {
        LogModel {
            selected: if end {
                self.last_row()
            } else {
                0
            },
            follow: end,
            ..self.deselected()
        }
    }

    /// A filtered line holds the searched text, whatever the case of ASCII letters.
    pub open spec fn hit(self, row: int) -> bool {
        occurs(
            lowered(self.filtered()[row]@.shown(self.show_timestamps)),
            lowered(trimmed(self.search_query)),
        )
    }

    /// The line that is some steps ahead of the selected one, or behind it; beyond the one end
    /// the lines go on at the other.
    pub open spec fn row_after(self, steps: int, reverse: bool) -> int {
        let from = lesser(self.selected, self.last_row());
        let len = self.filtered().len() as int;
        if reverse {
            if steps <= from {
                from - steps
            } else {
                from - steps + len
            }
        } else {
            if from + steps < len {
                from + steps
            } else {
                from + steps - len
            }
        }
    }

    /// The first line with the searched text, from some steps on to a whole round.
    pub open spec fn first_hit(self, steps: int, reverse: bool) -> Option<int>
        decreases self.filtered().len() + 1 - steps,
    {
        if steps > self.filtered().len() {
            None
        } else if self.hit(self.row_after(steps, reverse)) {
            Some(self.row_after(steps, reverse))
        } else {
            self.first_hit(steps + 1, reverse)
        }
    }

    /// The selection moves to the next line, or the one before, with the searched text.
    pub open spec fn searched(self, reverse: bool) -> LogModel {
        if trimmed(self.search_query).len() == 0 {
            self
        } else {
            match self.first_hit(1, reverse) {
                Some(row) => LogModel { selected: row, follow: false, ..self.deselected() },
                None => self,
            }
        }
    }

    /// The end is followed or no longer followed.
    pub open spec fn follow_toggled(self) -> LogModel {
        LogModel {
            follow: !self.follow,
            selected: if self.follow {
                self.selected
            } else {
                self.last_row()
            },
            ..self.deselected()
        }
    }

    /// The filter reads its query the other way.
    pub open spec fn mode_toggled(self) -> LogModel {
        let other = LogModel {
            filter_mode: match self.filter_mode {
                LogFilterMode::Substring => LogFilterMode::Regex,
                LogFilterMode::Regex => LogFilterMode::Substring,
            },
            ..self
        };
        LogModel { selected: lesser(self.selected, other.last_row()), ..other.deselected() }
    }

    /// The filter has another query; the last line is selected.
    pub open spec fn with_filter(self, query: Seq<char>) -> LogModel {
        let other = LogModel { filter_query: query, ..self };
        LogModel {
            selected: other.last_row(),
            scroll_top: other.last_row(),
            ..other.deselected()
        }
    }

    /// Another text is searched.
    pub open spec fn with_search(self, query: Seq<char>) -> LogModel {
        LogModel { search_query: query, ..self }.searched(false)
    }

    /// The window of some rows holds the selected line, the end where the end is followed.
    pub open spec fn in_view(self, height: int) -> LogModel {
        let len = self.filtered().len();
        let rows = if height < 1 {
            1
        } else {
            height
        };
        if len == 0 {
            LogModel { scroll_top: 0, selected: 0, ..self }
        } else if self.follow {
            LogModel {
                scroll_top: if len < rows {
                    0
                } else {
                    len - rows
                },
                selected: len - 1,
                ..self
            }
        } else {
            let selected = lesser(self.selected, len - 1);
            LogModel { scroll_top: window_for(self.scroll_top, selected, rows), selected, ..self }
        }
    }

    /// The rows that are visible in a window of some rows and columns.
    pub open spec fn visible(self, height: int, width: int) -> Seq<(int, Seq<char>)> {
        at_most(
            rows_from(
                self.filtered(),
                self.scroll_top,
                self.show_timestamps,
                self.wrap,
                if width < 1 {
                    1
                } else {
                    width as usize
                },
            ),
            height,
        )
    }

    /// The first and the last line of the selected range.
    pub open spec fn range(self) -> Option<(int, int)> {
        match (self.selection_anchor, self.selection_end) {
            (Some(start), Some(end)) => Some(
                if start <= end {
                    (start, end)
                } else {
                    (end, start)
                },
            ),
            _ => None,
        }
    }

    /// The texts of the filtered lines.
    pub open spec fn shown_lines(self) -> Seq<Seq<char>> {
        self.filtered().map_values(|entry: LogEntry| entry@.shown(self.show_timestamps))
    }

    /// What is copied: the lines of the selected range, or the selected line.
    pub open spec fn copied_text(self) -> Option<Seq<char>> {
        if self.filtered().len() == 0 {
            None
        } else {
            match self.range() {
                Some((start, end)) => Some(
                    joined(
                        self.shown_lines().subrange(
                            lesser(start, self.last_row()),
                            lesser(end, self.last_row()) + 1,
                        ),
                        "\n"@,
                    ),
                ),
                None => Some(self.shown_lines()[lesser(self.selected, self.last_row())]),
            }
        }
    }

    /// The mouse begins a range at a line.
    pub open spec fn range_started(self, index: int, height: int) -> LogModel {
        LogModel {
            follow: false,
            selected: index,
            selection_anchor: Some(index),
            selection_end: Some(index),
            drag_active: true,
            ..self
        }.in_view(height)
    }

    /// The mouse draws the range on to a line.
    pub open spec fn range_extended(self, index: int, height: int) -> LogModel {
        if self.drag_active {
            LogModel { selected: index, selection_end: Some(index), ..self }.in_view(height)
        } else {
            self
        }
    }

    /// The mouse lets go of the range.
    pub open spec fn drag_finished(self) -> LogModel {
        LogModel { drag_active: false, ..self }
    }

    /// The window moves to a position, as far as it can; a selection that it leaves behind moves
    /// to its nearest line.
    pub open spec fn scrolled_to(self, position: int, height: int) -> LogModel {
        let len = self.filtered().len();
        let rows = if height < 1 {
            1
        } else {
            height
        };
        if len == 0 {
            LogModel { scroll_top: 0, selected: 0, ..self }
        } else {
            let top = lesser(
                position,
                if len < rows {
                    0
                } else {
                    len - rows
                },
            );
            let moved = LogModel { follow: false, scroll_top: top, ..self };
            if self.selected < top {
                LogModel { selected: top, ..moved.deselected() }
            } else if self.selected >= top + rows {
                LogModel { selected: lesser(top + rows - 1, len - 1), ..moved.deselected() }
            } else {
                moved
            }
        }
    }
}

// ---------------------------------------------------------------------------------------------
// The log view
// ---------------------------------------------------------------------------------------------

impl LogView {
    /// An empty log view that holds no more than a number of lines.
    pub fn new(show_timestamps: bool, max_entries: usize) -> (view: Self)
        ensures
            view@ == (LogModel {
                container_id: None,
                entries: Seq::empty(),
                loading: false,
                filter_query: Seq::empty(),
                search_query: Seq::empty(),
                filter_mode: LogFilterMode::Substring,
                follow: true,
                wrap: false,
                show_timestamps,
                selected: 0,
                max_entries: max_entries as int,
                scroll_top: 0,
                selection_anchor: None,
                selection_end: None,
                drag_active: false,
            }),
    {
        LogView {
            container_id: None,
            entries: Vec::new(),
            loading: false,
            filter_query: String::new(),
            search_query: String::new(),
            filter_mode: LogFilterMode::Substring,
            follow: true,
            wrap: false,
            show_timestamps,
            selected: 0,
            max_entries,
            scroll_top: 0,
            selection_anchor: None,
            selection_end: None,
            drag_active: false,
        }
    }

    /// Forgets the container and its lines.
    pub fn clear(&mut self)
        ensures
            final(self)@ == old(self)@.cleared(),
    {
        self.container_id = None;
        self.entries.clear();
        self.loading = false;
        self.selected = 0;
        self.scroll_top = 0;
        self.clear_selection();
    }

    /// Starts anew with the lines of a container.
    pub fn reset(&mut self, container_id: String)
        ensures
            final(self)@ == old(self)@.loading_for(Some(container_id@)),
    {
        self.clear();
        self.container_id = Some(container_id);
        self.loading = true;
        self.follow = true;
    }

    /// Starts anew with the lines of a container, where one is given.
    pub fn begin_loading(&mut self, container_id: Option<String>)
        ensures
            final(self)@ == old(self)@.loading_for(text_of(container_id)),
    {
        self.clear();
        self.loading = container_id.is_some();
        self.container_id = container_id;
        self.follow = true;
    }

    /// Notes that all expected lines have come.
    pub fn finish_loading(&mut self)
        ensures
            final(self)@ == old(self)@.loaded(),
    {
        self.loading = false;
    }

    /// The lines that the filter keeps, in their order.
    pub fn filtered_entries(&self) -> (filtered: Vec<&LogEntry>)
        ensures
            filtered@.unref() == self@.filtered(),
            filtered@.len() == self@.filtered().len(),
    {
        let query = trim(self.filter_query.as_str());
        let mode = self.filter_mode;
        let stamps = self.show_timestamps;
        let ghost keep = |entry: LogEntry| keeps(mode, self.filter_query@, stamps, entry);
        let uses_regex = match mode {
            LogFilterMode::Regex => !query.as_str().is_empty(),
            LogFilterMode::Substring => false,
        };
        let regex = if uses_regex {
            match compile(query.as_str()) {
                Ok(regex) => Some(regex),
                Err(_) => None,
            }
        } else {
            None
        };
        let mut filtered: Vec<&LogEntry> = Vec::new();
        let mut i: usize = 0;
        proof {
            reveal(Seq::filter);
            assert(filtered@.unref() =~= self.entries@.take(0).filter(keep));
        }
        while i < self.entries.len()
            invariant
                i <= self.entries@.len(),
                query@ == trimmed(self.filter_query@),
                mode == self.filter_mode,
                stamps == self.show_timestamps,
                keep == (|entry: LogEntry| keeps(mode, self.filter_query@, stamps, entry)),
                uses_regex == (mode == LogFilterMode::Regex && query@.len() > 0),
                regex matches Some(matches) ==> {
                    &&& regex_error(query@) is None
                    &&& forall|text: &str| #[trigger] matches.requires((text,))
                    &&& forall|text: &str, found: bool| #[trigger]
                        matches.ensures((text,), found) ==> found == regex_matches(query@, text@)
                },
                uses_regex && regex is None ==> regex_error(query@) is Some,
                filtered@.unref() == self.entries@.take(i as int).filter(keep),
            decreases self.entries@.len() - i,
        {
            let entry = &self.entries[i];
            let shown = entry.display(stamps);
            let matched = match &regex {
                Some(regex) => Some(regex(shown.as_str())),
                None => None,
            };
            let passes = passes_filter(mode, query.as_str(), shown.as_str(), matched);
            proof {
                reveal(Seq::filter);
                assert(self.entries@.take(i + 1).drop_last() =~= self.entries@.take(i as int));
                assert(self.entries@.take(i + 1).last() == self.entries@[i as int]);
                assert(passes == keep(self.entries@[i as int]));
            }
            if passes {
                let ghost before = filtered@.unref();
                filtered.push(entry);
                proof {
                    assert(filtered@.unref() =~= before.push(*entry));
                }
            }
            i += 1;
        }
        proof {
            assert(self.entries@.take(i as int) =~= self.entries@);
        }
        filtered
    }

    /// The number of lines that the filter keeps.
    pub fn filtered_len(&self) -> (len: usize)
        ensures
            len == self@.filtered().len(),
    {
        self.filtered_entries().len()
    }

    /// Adds lines at the end; the oldest go where there are too many.
    pub fn append(&mut self, entries: Vec<LogEntry>)
        ensures
            final(self)@ == old(self)@.appended(entries@),
    {
        if entries.len() == 0 {
            return;
        }
        let mut more = entries;
        self.entries.append(&mut more);
        let total: usize = self.entries.len();
        if total > self.max_entries {
            let rest = self.entries.split_off(total - self.max_entries);
            self.entries = rest;
        }
        proof {
            let all = old(self)@.entries + entries@;
            if total > self.max_entries {
                assert(self.entries@ =~= all.skip(total - self.max_entries));
            } else {
                assert(self.entries@ =~= all);
            }
        }
        let last: usize = last_of(self.filtered_len());
        if self.follow || self.selected > last {
            self.selected = last;
        }
    }

    /// The selected line.
    pub fn selected_entry(&self) -> (entry: Option<&LogEntry>)
        ensures
            match entry {
                Some(entry) => self@.filtered().len() > 0 && *entry == self@.filtered()[lesser(
                    self@.selected,
                    self@.last_row(),
                )],
                None => self@.filtered().len() == 0,
            },
    {
        let filtered = self.filtered_entries();
        if filtered.len() == 0 {
            return None;
        }
        let last: usize = filtered.len() - 1;
        let index: usize = if self.selected <= last { self.selected } else { last };
        proof {
            assert(filtered@.unref()[index as int] == *filtered@[index as int]);
        }
        Some(filtered[index])
    }

    /// The message of the error where the filter is meant as a regular expression and is none.
    pub fn regex_error(&self) -> (error: Option<String>)
        ensures
            text_of(error) == (if self.filter_mode == LogFilterMode::Regex && trimmed(
                self.filter_query@,
            ).len() > 0 {
                regex_error(self.filter_query@)
            } else {
                None
            }),
    {
        match self.filter_mode {
            LogFilterMode::Regex => if is_blank(self.filter_query.as_str()) {
                None
            } else {
                match compile(self.filter_query.as_str()) {
                    Ok(_) => None,
                    Err(message) => Some(message),
                }
            },
            LogFilterMode::Substring => None,
        }
    }

    /// Moves the selection by some lines.
    pub fn move_selection(&mut self, delta: isize)
        ensures
            final(self)@ == old(self)@.moved_by(delta as int),
    {
        let len: usize = self.filtered_len();
        if len == 0 {
            self.selected = 0;
            return;
        }
        let last: usize = len - 1;
        self.selected = shifted(self.selected, delta, last);
        self.follow = self.selected == last;
        self.clear_selection();
    }

    /// Moves the selection to the first or the last line.
    pub fn jump_to_edge(&mut self, end: bool)
        ensures
            final(self)@ == old(self)@.at_edge(end),
    {
        self.selected = if end { last_of(self.filtered_len()) } else { 0 };
        self.follow = end;
        self.clear_selection();
    }

    /// Moves the selection to the next line, or the one before, with the searched text.
    pub fn jump_to_match(&mut self, reverse: bool)
        ensures
            final(self)@ == old(self)@.searched(reverse),
    {
        let query = trim(self.search_query.as_str());
        if query.as_str().is_empty() {
            return;
        }
        let mut found: Option<usize> = None;
        {
            let filtered = self.filtered_entries();
            let len: usize = filtered.len();
            let last: usize = last_of(len);
            let from: usize = if self.selected <= last { self.selected } else { last };
            let mut steps: usize = 0;
            while steps < len && found.is_none()
                invariant
                    self@ == old(self)@,
                    query@ == trimmed(self@.search_query),
                    filtered@.unref() == self@.filtered(),
                    filtered@.len() == len == self@.filtered().len(),
                    last == self@.last_row(),
                    from == lesser(self@.selected, self@.last_row()),
                    steps <= len,
                    match found {
                        Some(row) => self@.first_hit(1, reverse) == Some(row as int),
                        None => self@.first_hit(1, reverse) == self@.first_hit(
                            steps + 1,
                            reverse,
                        ),
                    },
                decreases len - steps,
            {
                steps += 1;
                let row: usize = if reverse {
                    if steps <= from {
                        from - steps
                    } else {
                        len - (steps - from)
                    }
                } else if steps < len - from {
                    from + steps
                } else {
                    steps - (len - from)
                };
                let shown = filtered[row].display(self.show_timestamps);
                proof {
                    assert(row == self@.row_after(steps as int, reverse));
                    assert(filtered@.unref()[row as int] == *filtered@[row as int]);
                }
                if contains_ignoring_case(shown.as_str(), query.as_str()) {
                    found = Some(row);
                }
            }
        }
        if let Some(row) = found {
            self.selected = row;
            self.follow = false;
            self.clear_selection();
        }
    }

    /// Follows the end, or no longer follows it.
    pub fn toggle_follow(&mut self)
        ensures
            final(self)@ == old(self)@.follow_toggled(),
    {
        self.follow = !self.follow;
        if self.follow {
            self.selected = last_of(self.filtered_len());
        }
        self.clear_selection();
    }

    /// Reads the query of the filter the other way.
    pub fn toggle_filter_mode(&mut self)
        ensures
            final(self)@ == old(self)@.mode_toggled(),
    {
        self.filter_mode = match self.filter_mode {
            LogFilterMode::Substring => LogFilterMode::Regex,
            LogFilterMode::Regex => LogFilterMode::Substring,
        };
        let last: usize = last_of(self.filtered_len());
        if self.selected > last {
            self.selected = last;
        }
        self.clear_selection();
    }

    /// Gives the filter another query.
    pub fn set_filter_query(&mut self, value: String)
        ensures
            final(self)@ == old(self)@.with_filter(value@),
    {
        self.filter_query = value;
        self.selected = last_of(self.filtered_len());
        self.scroll_top = self.selected;
        self.clear_selection();
    }

    /// Searches another text.
    pub fn set_search_query(&mut self, value: String)
        ensures
            final(self)@ == old(self)@.with_search(value@),
    {
        self.search_query = value;
        self.jump_to_match(false);
    }

    /// Moves a window of some rows so that the selected line is in it.
    pub fn ensure_visible(&mut self, height: usize)
        ensures
            final(self)@ == old(self)@.in_view(height as int),
    {
        let len: usize = self.filtered_len();
        if len == 0 {
            self.scroll_top = 0;
            self.selected = 0;
            return;
        }
        let rows: usize = if height < 1 { 1 } else { height };
        if self.follow {
            self.scroll_top = len.saturating_sub(rows);
            self.selected = len - 1;
            return;
        }
        if self.selected > len - 1 {
            self.selected = len - 1;
        }
        self.scroll_top = scroll_offset_for_selection(self.scroll_top, self.selected, rows);
    }

    /// The rows that are visible in a window of some rows and columns.
    pub fn visible_rows(&self, height: usize, width: usize) -> (rows: Vec<VisibleLogRow>)
        ensures
            row_models(rows@) == self@.visible(height as int, width as int),
    {
        let filtered = self.filtered_entries();
        let len: usize = filtered.len();
        let width: usize = if width < 1 { 1 } else { width };
        let stamps = self.show_timestamps;
        let wrap = self.wrap;
        let ghost lines = self@.filtered();
        let ghost all = rows_from(lines, self@.scroll_top, stamps, wrap, width);
        let mut rows: Vec<VisibleLogRow> = Vec::new();
        let mut i: usize = self.scroll_top;
        proof {
            assert(row_models(rows@) =~= Seq::<(int, Seq<char>)>::empty());
            assert(row_models(rows@) + all =~= all);
        }
        while i < len && rows.len() < height
            invariant
                filtered@.unref() == lines,
                filtered@.len() == len == lines.len(),
                rows@.len() <= height,
                stamps == self.show_timestamps,
                wrap == self.wrap,
                rows@.len() < height ==> all == row_models(rows@) + rows_from(
                    lines,
                    i as int,
                    stamps,
                    wrap,
                    width,
                ),
                rows@.len() == height ==> row_models(rows@) == at_most(all, height as int),
            decreases len - i,
        {
            let shown = filtered[i].display(stamps);
            let ghost before = row_models(rows@);
            let ghost text = shown@;
            let texts_of_line = if wrap { wrap_text(shown.as_str(), width) } else { vec![shown] };
            proof {
                assert(filtered@.unref()[i as int] == *filtered@[i as int]);
                assert(text == lines[i as int]@.shown(stamps));
                assert(texts(texts_of_line@) =~= line_texts(text, wrap, width));
            }
            push_rows(&mut rows, i, texts_of_line, height);
            proof {
                let own = line_rows(i as int, line_texts(text, wrap, width));
                let rest = rows_from(lines, i + 1, stamps, wrap, width);
                assert(all =~= (before + own) + rest);
                if rows@.len() == height {
                    assert((before + own).take(height as int) =~= all.take(height as int));
                    if all.len() == height {
                        assert(all.take(height as int) =~= all);
                    }
                    if (before + own).len() == height {
                        assert((before + own).take(height as int) =~= before + own);
                    }
                }
            }
            i += 1;
        }
        proof {
            assert(row_models(rows@).len() == rows@.len());
            if rows@.len() < height {
                assert(rows_from(lines, i as int, stamps, wrap, width).len() == 0);
                assert(all =~= row_models(rows@));
            }
        }
        rows
    }

    /// The first and the last line of the selected range.
    pub fn selected_range(&self) -> (range: Option<(usize, usize)>)
        ensures
            match range {
                Some((start, end)) => self@.range() == Some((start as int, end as int)) && start
                    <= end,
                None => self@.range() is None,
            },
    {
        match (self.selection_anchor, self.selection_end) {
            (Some(start), Some(end)) => if start <= end {
                Some((start, end))
            } else {
                Some((end, start))
            },
            _ => None,
        }
    }

    /// What is copied: the lines of the selected range, or the selected line.
    pub fn selected_text(&self) -> (text: Option<String>)
        ensures
            text_of(text) == self@.copied_text(),
    {
        let filtered = self.filtered_entries();
        if filtered.len() == 0 {
            return None;
        }
        let total: usize = filtered.len();
        let last: usize = total - 1;
        let stamps = self.show_timestamps;
        let ghost lines = self@.shown_lines();
        match self.selected_range() {
            Some((start, end)) => {
                let from: usize = if start <= last { start } else { last };
                let to: usize = if end <= last { end } else { last };
                let mut parts: Vec<String> = Vec::new();
                let mut i: usize = from;
                proof {
                    assert(texts(parts@) =~= lines.subrange(from as int, from as int));
                }
                while i <= to
                    invariant
                        from <= i <= to + 1,
                        to <= last < total == filtered@.len(),
                        filtered@.unref() == self@.filtered(),
                        filtered@.len() == self@.filtered().len(),
                        stamps == self@.show_timestamps,
                        lines == self@.shown_lines(),
                        texts(parts@) == lines.subrange(from as int, i as int),
                    decreases to + 1 - i,
                {
                    let ghost earlier = parts@;
                    let shown = filtered[i].display(stamps);
                    parts.push(shown);
                    proof {
                        assert(filtered@.unref()[i as int] == *filtered@[i as int]);
                        assert(lines[i as int] == shown@);
                        assert(texts(parts@) =~= texts(earlier).push(shown@));
                        assert(lines.subrange(from as int, i + 1) =~= lines.subrange(
                            from as int,
                            i as int,
                        ).push(lines[i as int]));
                    }
                    i += 1;
                }
                Some(join(&parts, "\n"))
            },
            None => {
                let index: usize = if self.selected <= last { self.selected } else { last };
                proof {
                    assert(filtered@.unref()[index as int] == *filtered@[index as int]);
                }
                Some(filtered[index].display(stamps))
            },
        }
    }

    /// Begins a range at a line.
    pub fn start_mouse_selection(&mut self, entry_index: usize, height: usize)
        ensures
            final(self)@ == old(self)@.range_started(entry_index as int, height as int),
    {
        self.follow = false;
        self.selected = entry_index;
        self.selection_anchor = Some(entry_index);
        self.selection_end = Some(entry_index);
        self.drag_active = true;
        self.ensure_visible(height);
    }

    /// Draws the range on to a line.
    pub fn update_mouse_selection(&mut self, entry_index: usize, height: usize)
        ensures
            final(self)@ == old(self)@.range_extended(entry_index as int, height as int),
    {
        if !self.drag_active {
            return;
        }
        self.selected = entry_index;
        self.selection_end = Some(entry_index);
        self.ensure_visible(height);
    }

    /// Lets go of the range.
    pub fn finish_drag(&mut self)
        ensures
            final(self)@ == old(self)@.drag_finished(),
    {
        self.drag_active = false;
    }

    /// Moves the window to a position.
    pub fn set_scroll_top(&mut self, position: usize, height: usize)
        ensures
            final(self)@ == old(self)@.scrolled_to(position as int, height as int),
    {
        let len: usize = self.filtered_len();
        if len == 0 {
            self.scroll_top = 0;
            self.selected = 0;
            return;
        }
        let rows: usize = if height < 1 { 1 } else { height };
        let highest: usize = len.saturating_sub(rows);
        self.follow = false;
        self.scroll_top = if position <= highest { position } else { highest };
        if self.selected < self.scroll_top {
            self.selected = self.scroll_top;
            self.clear_selection();
        } else if self.selected - self.scroll_top >= rows {
            let bottom: usize = self.scroll_top + (rows - 1);
            self.selected = if bottom <= len - 1 { bottom } else { len - 1 };
            self.clear_selection();
        }
    }

    fn clear_selection(&mut self)
        ensures
            final(self)@ == old(self)@.deselected(),
    {
        self.selection_anchor = None;
        self.selection_end = None;
        self.drag_active = false;
    }
}

// ---------------------------------------------------------------------------------------------
// Laws of the log view
// ---------------------------------------------------------------------------------------------

/// A line is among the filtered ones exactly if it is in the log and the filter keeps it.
pub proof fn filter_is_complete(view: LogModel, entry: LogEntry)
    ensures
        view.filtered().contains(entry) <==> view.entries.contains(entry) && keeps(
            view.filter_mode,
            view.filter_query,
            view.show_timestamps,
            entry,
        ),
{
    broadcast use vstd::seq_lib::group_filter_ensures;

    let keep = |line: LogEntry|
        keeps(view.filter_mode, view.filter_query, view.show_timestamps, line);
    let found = view.entries.filter(keep);
    if found.contains(entry) {
        let i = choose|i: int| 0 <= i < found.len() && found[i] == entry;
        view.entries.lemma_filter_pred(keep, i);
        view.entries.lemma_filter_contains_rev(keep, entry);
    }
    if view.entries.contains(entry) && keep(entry) {
        let i = choose|i: int| 0 <= i < view.entries.len() && view.entries[i] == entry;
        view.entries.lemma_filter_contains(keep, i);
    }
}

/// A log that holds no more lines than it may still does after lines have come, and it holds the
/// newest ones, in their order.
pub proof fn newest_lines_are_kept(view: LogModel, more: Seq<LogEntry>)
    requires
        view.entries.len() <= view.max_entries,
    ensures
        view.appended(more).entries.len() <= view.max_entries,
        view.appended(more).entries.is_suffix_of(view.entries + more),
        (view.entries + more).len() <= view.max_entries ==> view.appended(more).entries
            == view.entries + more,
{
    if more.len() == 0 {
        assert(view.entries + more =~= view.entries);
    }
    let all = view.entries + more;
    let rest = view.appended(more).entries;
    assert(all.subrange(all.len() - rest.len(), all.len() as int) =~= rest);
}

/// Where the end is followed, the last line is selected after lines have come.
pub proof fn followed_end_is_selected(view: LogModel, more: Seq<LogEntry>)
    requires
        view.follow,
        more.len() > 0,
    ensures
        view.appended(more).selected == view.appended(more).last_row(),
{
}

/// After the window has been moved it holds the selected line, which is in range; where the end
/// is followed, that is the last line. Moving the window again changes nothing.
pub proof fn window_holds_the_selection(view: LogModel, height: int)
    requires
        view.filtered().len() > 0,
        view.selected >= 0,
        view.scroll_top >= 0,
    ensures
        0 <= view.in_view(height).scroll_top <= view.in_view(height).selected,
        view.in_view(height).selected < view.filtered().len(),
        view.in_view(height).selected < view.in_view(height).scroll_top + (if height < 1 {
            1
        } else {
            height
        }),
        view.follow ==> view.in_view(height).selected == view.last_row(),
        view.in_view(height).in_view(height) == view.in_view(height),
{
    selection_is_in_the_window(
        view.scroll_top,
        lesser(view.selected, view.filtered().len() - 1),
        if height < 1 {
            1
        } else {
            height
        },
    );
}

/// After the window has been moved to a position it holds the selected line, which is in range.
pub proof fn scrolling_keeps_the_selection_in_the_window(
    view: LogModel,
    position: int,
    height: int,
)
    requires
        0 <= view.selected < view.filtered().len(),
        position >= 0,
    ensures
        0 <= view.scrolled_to(position, height).scroll_top <= position,
        view.scrolled_to(position, height).scroll_top <= view.scrolled_to(
            position,
            height,
        ).selected < view.scrolled_to(position, height).scroll_top + (if height < 1 {
            1
        } else {
            height
        }),
        view.scrolled_to(position, height).selected < view.filtered().len(),
{
}

/// Toggling how the filter reads its query twice leaves the filter as it was.
pub proof fn toggling_the_mode_twice_restores_the_filter(view: LogModel)
    ensures
        view.mode_toggled().mode_toggled().filter_mode == view.filter_mode,
        view.mode_toggled().mode_toggled().filtered() == view.filtered(),
{
}

/// From some steps on, the first line with the searched text is the one with the fewest steps;
/// where there is none, no line within a whole round has the text.
proof fn first_hit_is_first(view: LogModel, steps: int, reverse: bool)
    ensures
        match view.first_hit(steps, reverse) {
            Some(row) => exists|s: int| #[trigger]
                view.row_after(s, reverse) == row && steps <= s <= view.filtered().len()
                    && view.hit(row) && forall|t: int|
                    steps <= t < s ==> !view.hit(#[trigger] view.row_after(t, reverse)),
            None => forall|t: int|
                steps <= t <= view.filtered().len() ==> !view.hit(
                    #[trigger] view.row_after(t, reverse),
                ),
        },
    decreases view.filtered().len() + 1 - steps,
{
    if steps <= view.filtered().len() {
        let here = view.row_after(steps, reverse);
        if !view.hit(here) {
            first_hit_is_first(view, steps + 1, reverse);
            match view.first_hit(steps + 1, reverse) {
                Some(row) => {
                    let s = choose|s: int| #[trigger]
                        view.row_after(s, reverse) == row && steps + 1 <= s
                            <= view.filtered().len() && view.hit(row) && forall|t: int|
                            steps + 1 <= t < s ==> !view.hit(#[trigger] view.row_after(t, reverse));
                    assert(view.row_after(s, reverse) == row);
                },
                None => {},
            }
        }
    }
}

/// A search moves to a line with the searched text if there is one: the first one ahead of the
/// selected line, or behind it, with the lines going on at the other end. If there is none, it
/// changes nothing.
pub proof fn search_finds_the_nearest_line(view: LogModel, reverse: bool)
    requires
        trimmed(view.search_query).len() > 0,
        view.selected >= 0,
    ensures
        (exists|row: int| 0 <= row < view.filtered().len() && #[trigger] view.hit(row)) ==> {
            let found = view.searched(reverse).selected;
            &&& 0 <= found < view.filtered().len()
            &&& view.hit(found)
            &&& exists|s: int| #[trigger]
                view.row_after(s, reverse) == found && 1 <= s <= view.filtered().len()
                    && forall|t: int|
                    1 <= t < s ==> !view.hit(#[trigger] view.row_after(t, reverse))
        },
        (forall|row: int| 0 <= row < view.filtered().len() ==> !#[trigger] view.hit(row))
            ==> view.searched(reverse) == view,
{
    first_hit_is_first(view, 1, reverse);
    let len = view.filtered().len() as int;
    let from = lesser(view.selected, view.last_row());
    if exists|row: int| 0 <= row < len && #[trigger] view.hit(row) {
        let row = choose|row: int| 0 <= row < len && #[trigger] view.hit(row);
        let t = if reverse {
            if row < from {
                from - row
            } else {
                from - row + len
            }
        } else {
            if row > from {
                row - from
            } else {
                row - from + len
            }
        };
        assert(view.row_after(t, reverse) == row);
    }
}

/// A range that the mouse draws from one line to another is copied whole, whichever of the two
/// comes first.
pub proof fn drawn_range_is_copied(view: LogModel, first: int, second: int, height: int)
    requires
        0 <= first < view.filtered().len(),
        0 <= second < view.filtered().len(),
    ensures
        view.range_started(first, height).range_extended(second, height).copied_text() == Some(
            joined(
                view.shown_lines().subrange(
                    lesser(first, second),
                    (if first <= second {
                        second
                    } else {
                        first
                    }) + 1,
                ),
                "\n"@,
            ),
        ),
{
    let drawn = view.range_started(first, height).range_extended(second, height);
    assert(drawn.filtered() == view.filtered());
    assert(drawn.shown_lines() =~= view.shown_lines());
}

/// The rows of unwrapped lines are the lines themselves.
proof fn unwrapped_rows_from(
    entries: Seq<LogEntry>,
    index: int,
    show_timestamps: bool,
    width: usize,
)
    requires
        0 <= index <= entries.len(),
    ensures
        rows_from(entries, index, show_timestamps, false, width) == Seq::new(
            (entries.len() - index) as nat,
            |i: int| (index + i, entries[index + i]@.shown(show_timestamps)),
        ),
    decreases entries.len() - index,
{
    if index < entries.len() {
        unwrapped_rows_from(entries, index + 1, show_timestamps, width);
    }
    assert(rows_from(entries, index, show_timestamps, false, width) =~= Seq::new(
        (entries.len() - index) as nat,
        |i: int| (index + i, entries[index + i]@.shown(show_timestamps)),
    ));
}

/// Without wrapping, the visible rows are the filtered lines from the top of the window on, one
/// row for each, as many as the window has rows.
pub proof fn visible_rows_are_the_lines_of_the_window(view: LogModel, height: int, width: int)
    requires
        !view.wrap,
        0 <= view.scroll_top <= view.filtered().len(),
        height >= 0,
    ensures
        view.visible(height, width).len() == lesser(
            height,
            view.filtered().len() - view.scroll_top,
        ),
        forall|i: int|
            0 <= i < view.visible(height, width).len() ==> #[trigger] view.visible(
                height,
                width,
            )[i] == (view.scroll_top + i, view.shown_lines()[view.scroll_top + i]),
{
    unwrapped_rows_from(
        view.filtered(),
        view.scroll_top,
        view.show_timestamps,
        if width < 1 {
            1
        } else {
            width as usize
        },
    );
}

} // verus!
