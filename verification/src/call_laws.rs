//! Laws of single calls: what is left behind by a call, in terms of what was there before.

use crate::ansi::{
    columns_of, flat, flat_lines, parse_ansi, plain_style, plain_text, strip_ansi, stripped,
    styled, wrap_chunks, wrapped, StyledChunk,
};
use crate::app::started;
use crate::config::{AppConfig, RuntimeConfig, ThemeName};
use crate::docker::{
    action_models, engine_notice, event_models, passed, since_after, DetailsError, DockerEvent,
    EngineNotice, EventModel, LogWatcher, NoticeStep, WatchAction, WatchEvent,
};
use crate::keys::{key_name, matches_binding, render_key_event, KeyEvent, MouseEvent};
use crate::layout::{fills_screen, layout_of, AppLayout, Rect, ScrollMetrics};
use crate::log_laws::{
    is_passed, rows_taken, search_selects_the_nearest_line, wrapped_rows_are_the_broken_lines,
};
use crate::logs::{
    row_models, visible_rows_are_the_lines_of_the_window, wrapped_text, LogModel, LogView,
    VisibleLogRow,
};
use crate::model::{
    apply_container_filters, entry_models, passing_is_complete, sort_containers, str_of, tab_rows,
    ContainerDetails, ContainerRecord, DetailItem, LogEntry, LogFilterMode, PortMapping,
    SummaryError,
};
use crate::model_laws::containers_answer_to_what_they_hold;
use crate::mouse_laws::{a_click_selects_the_container_under_it, is_click, is_heeded, is_inside};
use crate::pattern::regex_error;
use crate::state::{ui_models, App, Focus, ScrollbarTarget, UiCommand, UiModel};
use crate::stream::{
    entries_of, output_entries, parse_log_output, split_log_lines, LogOutput, LogReplayGate,
};
use crate::tab::{tab_index, DetailTab};
use crate::text::{all_white, decimal, joined, text_of, texts, trimmed};
use crate::text_laws::{holds, same_but_case, splits_round};
use crate::ui::{
    container_headings, copied_message, copy_error, copy_failed_message, copy_failure,
    copy_methods, highlight_search, log_panel, log_subtitle, marked_text, method_models, notes,
    padded_label, panel_models, panel_of, row_emphasis, scrollbar_rows, status_line, thumb_rows,
    useful_programs, words, CopyMethod, Emphasis, MethodModel, PanelRow, RowText,
};
use vstd::prelude::*;
use vstd::utf8::encode_utf8;

verus! {

// ---------------------------------------------------------------------------------------------
// The log view
// ---------------------------------------------------------------------------------------------

/// Jumping to a match selects the nearest line, in the direction of the search, whose shown text
/// is some text, the searched text in any case, and some text.
pub proof fn jumping_selects_the_match(
    view: &mut LogView,
    reverse: bool,
    done: (),
    row: int,
    before: Seq<char>,
    middle: Seq<char>,
    behind: Seq<char>,
)
    requires
        call_ensures(LogView::jump_to_match, (view, reverse), done),
        0 <= row < old(view)@.filtered().len(),
        trimmed(old(view).search_query@).len() > 0,
        old(view)@.shown_lines()[row] == before + middle + behind,
        same_but_case(middle, trimmed(old(view).search_query@)),
        forall|other: int, a: Seq<char>, m: Seq<char>, b: Seq<char>|
            0 <= other < old(view)@.filtered().len() && is_passed(
                if old(view).selected < old(view)@.filtered().len() {
                    old(view).selected as int
                } else {
                    old(view)@.filtered().len() - 1
                },
                other,
                row,
                reverse,
            ) ==> !#[trigger] splits_round(
                old(view)@.shown_lines()[other],
                a,
                m,
                b,
                trimmed(old(view).search_query@),
            ),
    ensures
        final(view).selected == row,
        !final(view).follow,
        final(view).entries@ == old(view).entries@,
        final(view).search_query@ == old(view).search_query@,
        final(view).filter_query@ == old(view).filter_query@,
{
    search_selects_the_nearest_line(old(view)@, reverse, row, before, middle, behind);
}

/// Searching another text selects the nearest line ahead whose shown text is some text, the text
/// in any case, and some text.
pub proof fn searching_selects_the_match(
    view: &mut LogView,
    query: String,
    done: (),
    row: int,
    before: Seq<char>,
    middle: Seq<char>,
    behind: Seq<char>,
)
    requires
        call_ensures(LogView::set_search_query, (view, query), done),
        old(view).selected < old(view)@.filtered().len(),
        0 <= row < old(view)@.filtered().len(),
        trimmed(query@).len() > 0,
        old(view)@.shown_lines()[row] == before + middle + behind,
        same_but_case(middle, trimmed(query@)),
        forall|other: int, a: Seq<char>, m: Seq<char>, b: Seq<char>|
            0 <= other < old(view)@.filtered().len() && is_passed(
                old(view).selected as int,
                other,
                row,
                false,
            ) ==> !#[trigger] splits_round(
                old(view)@.shown_lines()[other],
                a,
                m,
                b,
                trimmed(query@),
            ),
    ensures
        final(view).selected == row,
        final(view).search_query@ == query@,
        final(view).entries@ == old(view).entries@,
{
    crate::log_laws::a_new_search_looks_forward(
        old(view)@,
        query@,
        row,
        before,
        middle,
        behind,
    );
    let asked = LogModel { search_query: query@, ..old(view)@ };
    assert(final(view)@ == asked.searched(false));
}

/// With wrapping on, the visible rows are the texts that each shown line is broken into, with the
/// index of the line.
pub proof fn wrapped_rows_are_visible(
    view: &LogView,
    height: usize,
    width: usize,
    rows: Vec<VisibleLogRow>,
    line: int,
    part: int,
)
    requires
        call_ensures(LogView::visible_rows, (view, height, width), rows),
        view.wrap,
        width >= 1,
        view.scroll_top <= line < view@.filtered().len(),
        0 <= part < wrapped_text(view@.shown_lines()[line], width).len(),
    ensures
        ({
            let at = rows_taken(view@.shown_lines(), view.scroll_top as int, line, width) + part;
            at < height ==> 0 <= at < rows@.len() && rows@[at].entry_index == line
                && rows@[at].text@ == wrapped_text(view@.shown_lines()[line], width)[part]
        }),
        rows@.len() <= height,
{
    wrapped_rows_are_the_broken_lines(view@, height as int, width, line, part);
    let at = rows_taken(view@.shown_lines(), view.scroll_top as int, line, width) + part;
    assert(row_models(rows@).len() == rows@.len());
    if at < height {
        assert(row_models(rows@)[at] == rows@[at]@);
    }
}

/// Without wrapping, the visible rows are the shown lines from the top of the window on.
pub proof fn lines_are_visible(
    view: &LogView,
    height: usize,
    width: usize,
    rows: Vec<VisibleLogRow>,
    at: int,
)
    requires
        call_ensures(LogView::visible_rows, (view, height, width), rows),
        !view.wrap,
        0 <= at < height,
        view.scroll_top + at < view@.filtered().len(),
    ensures
        at < rows@.len() <= height,
        rows@[at].entry_index == view.scroll_top + at,
        rows@[at].text@ == view@.shown_lines()[view.scroll_top + at],
{
    visible_rows_are_the_lines_of_the_window(view@, height as int, width as int);
    assert(row_models(rows@).len() == rows@.len());
    assert(row_models(rows@)[at] == rows@[at]@);
}

/// The filtered lines are handed out in their order.
pub proof fn filtered_lines_are_handed_out(view: &LogView, lines: Vec<&LogEntry>, at: int)
    requires
        call_ensures(LogView::filtered_entries, (view,), lines),
        0 <= at < view@.filtered().len(),
    ensures
        lines@.len() == view@.filtered().len(),
        *lines@[at] == view@.filtered()[at],
{
    assert(lines@.unref()[at] == *lines@[at]);
}

/// Lines that come are put behind the others.
pub proof fn lines_are_put_behind(view: &mut LogView, lines: Vec<LogEntry>, done: ())
    requires
        call_ensures(LogView::append, (view, lines), done),
        old(view).entries@.len() + lines@.len() <= old(view).max_entries,
    ensures
        final(view).entries@ == old(view).entries@ + lines@,
        final(view).follow == old(view).follow,
        final(view).filter_query@ == old(view).filter_query@,
{
    if lines@.len() == 0 {
        assert(old(view).entries@ + lines@ =~= old(view).entries@);
    }
    assert(final(view)@.entries == final(view).entries@);
}

/// Moving the selection goes as many lines as asked, where there are so many.
pub proof fn moving_goes_by_lines(view: &mut LogView, delta: isize, done: ())
    requires
        call_ensures(LogView::move_selection, (view, delta), done),
        0 <= old(view).selected + delta < old(view)@.filtered().len(),
    ensures
        final(view).selected == old(view).selected + delta,
        final(view).follow <==> final(view).selected == old(view)@.filtered().len() - 1,
        final(view).selection_anchor is None && final(view).selection_end is None,
{
    assert(final(view)@.selection_anchor is None);
    assert(final(view)@.selection_end is None);
}

/// Jumping to an edge selects the first line or the last one.
pub proof fn jumping_reaches_the_edge(view: &mut LogView, end: bool, done: ())
    requires
        call_ensures(LogView::jump_to_edge, (view, end), done),
        old(view)@.filtered().len() > 0,
    ensures
        end ==> final(view).selected == old(view)@.filtered().len() - 1 && final(view).follow,
        !end ==> final(view).selected == 0 && !final(view).follow,
{
}

/// Toggling whether the end is followed toggles just that, and follows to the last line.
pub proof fn following_is_toggled(view: &mut LogView, done: ())
    requires
        call_ensures(LogView::toggle_follow, (view,), done),
        old(view)@.filtered().len() > 0,
    ensures
        final(view).follow == !old(view).follow,
        final(view).follow ==> final(view).selected == old(view)@.filtered().len() - 1,
        !final(view).follow ==> final(view).selected == old(view).selected,
        final(view).entries@ == old(view).entries@,
{
    assert(final(view)@.entries == final(view).entries@);
}

/// Toggling how the filter is read keeps its text, and the selection where it is in range.
pub proof fn the_mode_is_toggled(view: &mut LogView, done: ())
    requires
        call_ensures(LogView::toggle_filter_mode, (view,), done),
    ensures
        final(view).filter_mode == LogFilterMode::Regex <==> old(view).filter_mode
            == LogFilterMode::Substring,
        final(view).filter_query@ == old(view).filter_query@,
        old(view).selected < final(view)@.filtered().len() ==> final(view).selected
            == old(view).selected,
{
    assert(final(view)@.filter_query == final(view).filter_query@);
    assert(final(view)@.filtered() == old(view)@.mode_toggled().filtered());
    let other = LogModel { filter_mode: final(view).filter_mode, ..old(view)@ };
    assert(final(view)@.filtered() == other.filtered());
}

/// A new filter is taken as it is, and selects the last line that it keeps.
pub proof fn the_filter_is_taken(view: &mut LogView, query: String, done: ())
    requires
        call_ensures(LogView::set_filter_query, (view, query), done),
    ensures
        final(view).filter_query@ == query@,
        final(view).entries@ == old(view).entries@,
        final(view).search_query@ == old(view).search_query@,
        final(view)@.filtered().len() > 0 ==> final(view).selected == final(view)@.filtered().len()
            - 1,
{
    crate::log_laws::a_new_filter_selects_the_last_line(old(view)@, query@);
    assert(final(view)@.filter_query == final(view).filter_query@);
    assert(final(view)@.search_query == final(view).search_query@);
    assert(final(view)@.entries == final(view).entries@);
}

/// A range is begun at a line, drawn on to another one, and then copied from the one to the other,
/// whichever comes first: the shown lines with line feeds between them.
pub proof fn ranges_are_copied(
    view: &LogView,
    text: Option<String>,
    first: usize,
    last: usize,
)
    requires
        call_ensures(LogView::selected_text, (view,), text),
        first <= last < view@.filtered().len(),
        (view.selection_anchor == Some(first) && view.selection_end == Some(last)) || (
        view.selection_anchor == Some(last) && view.selection_end == Some(first)),
    ensures
        text matches Some(copied) && copied@ == joined(
            view@.shown_lines().subrange(first as int, last + 1),
            seq!['\n'],
        ),
{
    reveal_strlit("\n");
    assert("\n"@ =~= seq!['\n']);
}

/// Without a range, the selected line is copied.
pub proof fn lines_are_copied(view: &LogView, text: Option<String>)
    requires
        call_ensures(LogView::selected_text, (view,), text),
        view.selection_anchor is None,
        view.selected < view@.filtered().len(),
    ensures
        text matches Some(copied) && copied@ == view@.shown_lines()[view.selected as int],
{
}

/// The mouse begins a range, draws it on, and lets it go.
pub proof fn ranges_are_drawn(
    view: &mut LogView,
    line: usize,
    height: usize,
    done: (),
)
    requires
        line < old(view)@.filtered().len(),
    ensures
        call_ensures(LogView::start_mouse_selection, (view, line, height), done) ==> final(view).selected == line && final(view)@.selection_anchor == Some(line as int) && final(view)@.selection_end == Some(line as int) && final(view).drag_active && !final(view).follow,
        call_ensures(LogView::update_mouse_selection, (view, line, height), done) && old(view).drag_active && !old(view).follow ==> final(view).selected == line && final(view)@.selection_end == Some(line as int) && final(view)@.selection_anchor == old(view)@.selection_anchor,
        call_ensures(LogView::update_mouse_selection, (view, line, height), done) && !old(view).drag_active ==> final(view)@ == old(view)@,
        call_ensures(LogView::finish_drag, (view,), done) ==> !final(view).drag_active && final(view)@.selection_anchor == old(view)@.selection_anchor,
{
}

/// The window is moved so that it holds the selected line, at the end where the end is followed.
pub proof fn the_window_is_moved(view: &mut LogView, height: usize, done: ())
    requires
        call_ensures(LogView::ensure_visible, (view, height), done),
        old(view)@.filtered().len() > 0,
        height >= 1,
    ensures
        final(view).scroll_top <= final(view).selected < final(view).scroll_top + height,
        old(view).follow ==> final(view).selected == old(view)@.filtered().len() - 1,
        old(view).follow && old(view)@.filtered().len() >= height ==> final(view).scroll_top
            + height == old(view)@.filtered().len(),
        !old(view).follow && old(view).selected < old(view)@.filtered().len() ==> final(view).selected == old(view).selected,
        !old(view).follow && old(view).scroll_top <= old(view).selected < old(view).scroll_top
            + height && old(view).selected < old(view)@.filtered().len() ==> final(view).scroll_top
            == old(view).scroll_top,
{
    crate::logs::window_holds_the_selection(old(view)@, height as int);
}

/// The window is moved to a position, or to the last one that fills it.
pub proof fn the_window_is_scrolled(view: &mut LogView, position: usize, height: usize, done: ())
    requires
        call_ensures(LogView::set_scroll_top, (view, position, height), done),
        1 <= height <= old(view)@.filtered().len(),
        old(view).selected < old(view)@.filtered().len(),
    ensures
        position + height <= old(view)@.filtered().len() ==> final(view).scroll_top == position,
        position + height > old(view)@.filtered().len() ==> final(view).scroll_top + height
            == old(view)@.filtered().len(),
        final(view).scroll_top <= final(view).selected < final(view).scroll_top + height,
        final(view).scroll_top <= old(view).selected < final(view).scroll_top + height ==> final(view).selected == old(view).selected,
        !final(view).follow,
{
}

/// A log that is begun or cleared is empty, and its container is the one that is given.
pub proof fn logs_are_begun(view: &mut LogView, id: String, done: ())
    ensures
        call_ensures(LogView::reset, (view, id), done) ==> final(view)@.container_id == Some(id@)
            && final(view).entries@.len() == 0 && final(view).loading && final(view).follow,
        call_ensures(LogView::begin_loading, (view, Some(id)), done) ==> final(view)@.container_id
            == Some(id@) && final(view).entries@.len() == 0 && final(view).loading && final(view).follow,
        call_ensures(LogView::clear, (view,), done) ==> final(view)@.container_id is None && final(view).entries@.len() == 0 && !final(view).loading && final(view).selected == 0,
        call_ensures(LogView::finish_loading, (view,), done) ==> !final(view).loading && final(view).entries@ == old(view).entries@,
{
    assert(final(view)@.entries == final(view).entries@);
    assert(final(view)@.loading == final(view).loading);
    assert(final(view)@.follow == final(view).follow);
    assert(final(view)@.selected == final(view).selected);
    let other: Option<String> = Some(id);
    assert(text_of(other) == Some(id@));
}

/// The selected line is the one that is selected, and there is one where there are lines.
pub proof fn the_selected_line_is_handed_out(view: &LogView, entry: Option<&LogEntry>)
    requires
        call_ensures(LogView::selected_entry, (view,), entry),
    ensures
        view.selected < view@.filtered().len() ==> (entry matches Some(line) && *line
            == view@.filtered()[view.selected as int]),
        view@.filtered().len() == 0 ==> entry is None,
{
}

/// A filter has an error where it is read as a regular expression, is not blank, and is none.
pub proof fn errors_of_the_filter_are_told(view: &LogView, error: Option<String>)
    requires
        call_ensures(LogView::regex_error, (view,), error),
    ensures
        view.filter_mode == LogFilterMode::Substring ==> error is None,
        trimmed(view.filter_query@).len() == 0 ==> error is None,
        view.filter_mode == LogFilterMode::Regex && trimmed(view.filter_query@).len() > 0
            ==> text_of(error) == regex_error(view.filter_query@),
{
}

// ---------------------------------------------------------------------------------------------
// The program
// ---------------------------------------------------------------------------------------------

/// A key does what the state says of it; the mouse, the engine and a new size of the screen too.
pub proof fn the_state_moves_on(
    app: &mut App,
    key: KeyEvent,
    mouse: MouseEvent,
    event: DockerEvent,
    commands: Vec<UiCommand>,
)
    ensures
        call_ensures(App::handle_key, (app, key), commands) ==> (
            final(app)@,
            ui_models(commands@),
        ) == old(app)@.after_key(key),
        call_ensures(App::handle_mouse, (app, mouse), commands) ==> (
            final(app)@,
            ui_models(commands@),
        ) == old(app)@.after_mouse(mouse),
        call_ensures(App::apply_docker_event, (app, event), commands) ==> (
            final(app)@,
            ui_models(commands@),
        ) == old(app)@.after_event(event, final(app)@.containers),
{
}

/// A click in the container list selects the container that is drawn under it.
pub proof fn clicking_selects_the_container(
    app: &mut App,
    mouse: MouseEvent,
    commands: Vec<UiCommand>,
    x: int,
    below: int,
)
    requires
        call_ensures(App::handle_mouse, (app, mouse), commands),
        is_heeded(old(app)@),
        0 <= below,
        old(app).container_offset + below < old(app)@.visible().len(),
        is_inside(old(app).sections.containers, x, old(app).sections.containers.y + 2 + below),
        is_click(mouse, x, old(app).sections.containers.y + 2 + below),
    ensures
        text_of(final(app).selected_id) == Some(
            old(app)@.visible().skip(old(app).container_offset as int)[below].id@,
        ),
        final(app).focus == Focus::Containers,
        final(app).containers@ == old(app).containers@,
{
    a_click_selects_the_container_under_it(old(app)@, mouse, x, below);
    assert(final(app)@.selected_id == text_of(final(app).selected_id));
    assert(final(app)@.containers == final(app).containers@);
    assert(final(app)@.focus == final(app).focus);
}

/// The containers of a list are put in order before they are listed.
pub proof fn lists_are_put_in_order(
    app: &mut App,
    containers: Vec<ContainerRecord>,
    commands: Vec<UiCommand>,
    i: int,
    j: int,
)
    requires
        call_ensures(
            App::apply_docker_event,
            (app, DockerEvent::ContainersUpdated(containers)),
            commands,
        ),
        0 <= i < j < final(app).containers@.len(),
    ensures
        final(app).containers@.len() == containers@.len(),
        final(app).containers@[j]@.running() ==> final(app).containers@[i]@.running(),
{
    crate::model_laws::containers_stand_in_order(containers@, final(app).containers@, i, j);
}

/// Sorting puts the running containers first.
pub proof fn sorting_puts_running_first(
    containers: &mut Vec<ContainerRecord>,
    done: (),
    i: int,
    j: int,
)
    requires
        call_ensures(sort_containers, (containers,), done),
        0 <= i < j < final(containers)@.len(),
    ensures
        final(containers)@.len() == old(containers)@.len(),
        final(containers)@[j]@.running() ==> final(containers)@[i]@.running(),
        final(containers)@[i]@.running() == final(containers)@[j]@.running()
            ==> crate::model_laws::no_later(
            final(containers)@[i]@.project,
            final(containers)@[j]@.project,
        ),
{
    crate::model_laws::containers_stand_in_order(
        old(containers)@,
        final(containers)@,
        i,
        j,
    );
}

/// A new size of the screen is noted, and the screen is split anew; what is selected stays.
pub proof fn a_new_size_is_noted(app: &mut App, viewport: Rect, done: ())
    requires
        call_ensures(App::set_viewport, (app, viewport), done),
        viewport != old(app).viewport,
    ensures
        final(app).viewport == viewport,
        fills_screen(final(app).sections, viewport),
        text_of(final(app).selected_id) == text_of(old(app).selected_id),
        final(app).containers@ == old(app).containers@,
        final(app).focus == old(app).focus,
        final(app).detail_tab == old(app).detail_tab,
{
    assert(final(app)@.viewport == final(app).viewport);
    assert(final(app)@.sections == final(app).sections);
    assert(final(app)@.selected_id == text_of(final(app).selected_id));
    assert(final(app)@.containers == final(app).containers@);
    assert(final(app)@.focus == final(app).focus);
    assert(final(app)@.detail_tab == final(app).detail_tab);
}

/// A status is said, and takes an error back; an error is said, and noted.
pub proof fn statuses_are_said(app: &mut App, message: String, done: ())
    ensures
        call_ensures(App::set_status, (app, message), done) ==> final(app).status@ == message@
            && text_of(final(app).last_error) is None,
        call_ensures(App::set_error, (app, message), done) ==> final(app).status@ == message@
            && text_of(final(app).last_error) == Some(message@),
{
    assert(final(app)@.status == final(app).status@);
    assert(final(app)@.last_error == text_of(final(app).last_error));
}

/// A thumb that is taken hold of is held where the mouse took it, or in the middle where the mouse
/// is beside it.
pub proof fn thumbs_are_held(
    app: &mut App,
    target: ScrollbarTarget,
    y: u16,
    top: u16,
    length: u16,
    commands: Vec<UiCommand>,
)
    requires
        call_ensures(App::begin_scrollbar_drag, (app, target, y, top, length), commands),
        top + length <= 65535,
    ensures
        final(app).scrollbar_drag is Some,
        final(app).scrollbar_drag->0.target == target,
        top <= y < top + length ==> final(app).scrollbar_drag->0.grab_offset == y - top,
        y < top || y >= top + length ==> final(app).scrollbar_drag->0.grab_offset == length / 2,
        ui_models(commands@) == seq![
            UiModel::DragScrollbar {
                target,
                y,
                grab_offset: final(app).scrollbar_drag->0.grab_offset,
            },
        ],
{
    assert(final(app)@.scrollbar_drag == final(app).scrollbar_drag);
}

// ---------------------------------------------------------------------------------------------
// What is shown
// ---------------------------------------------------------------------------------------------

/// The log panel shows the visible rows of the log in the window that the screen has for it.
pub proof fn the_log_is_shown(app: &App, panel: Vec<PanelRow>)
    requires
        call_ensures(log_panel, (app,), panel),
    ensures
        panel_models(panel@) == panel_of(
            app.logs@,
            app.logs@.visible(
                if app@.layout().logs_view.height < 1 {
                    1
                } else {
                    app@.layout().logs_view.height as int
                },
                if app@.layout().logs_view.width < 3 {
                    3
                } else {
                    app@.layout().logs_view.width as int
                },
            ),
        ),
{
}

/// The status line shows what is typed, or the status.
pub proof fn the_status_is_shown(app: &App, line: String)
    requires
        call_ensures(status_line, (app,), line),
    ensures
        app.input is None ==> line@ == app.status@,
        app.input matches Some(input) && input.kind == crate::state::InputKind::LogFilter ==> line@
            == "Filter: "@ + app.input->0.value@,
        app.input matches Some(input) && input.kind == crate::state::InputKind::LogSearch ==> line@
            == "Search: "@ + app.input->0.value@,
{
}

/// The containers that are handed out are those of the list, in their order; the selected one
/// stands at its position.
pub proof fn the_list_is_handed_out(app: &App, records: Vec<&ContainerRecord>, at: int)
    requires
        call_ensures(App::filtered_containers, (app,), records),
        0 <= at < app@.visible().len(),
    ensures
        records@.len() == app@.visible().len(),
        *records@[at] == app@.visible()[at],
{
    assert(records@.unref()[at] == *records@[at]);
}

/// The headings stand over their cells.
pub proof fn headings_stand_over_their_cells(headings: Vec<&'static str>)
    requires
        call_ensures(container_headings, (), headings),
    ensures
        words(headings@) == seq![
            "State"@,
            "Name"@,
            "Project"@,
            "Service"@,
            "Image"@,
            "Ports"@,
            "Status"@,
        ],
{
}

/// A text is put into the clipboard by a program of the desktop first, then by the desktop, and by
/// the terminal last.
pub proof fn ways_to_copy_stand_in_order(
    wayland: bool,
    x11: bool,
    macos: bool,
    methods: Vec<CopyMethod>,
)
    requires
        call_ensures(copy_methods, (wayland, x11, macos), methods),
    ensures
        methods@.len() >= 2,
        methods@[methods@.len() - 1]@ == MethodModel::Terminal,
        methods@[methods@.len() - 2]@ == MethodModel::Desktop,
        forall|i: int| 0 <= i < methods@.len() - 2 ==> (#[trigger] methods@[i])@ is Command,
        wayland ==> methods@[0]@ == MethodModel::Command("wl-copy"@, Seq::empty()),
{
    let shown = method_models(methods@);
    assert(shown.len() == methods@.len());
    assert(forall|i: int| 0 <= i < shown.len() ==> #[trigger] shown[i] == methods@[i]@);
    assert(forall|i: int|
        0 <= i < useful_programs(wayland, x11, macos).len() ==> #[trigger] useful_programs(
            wayland,
            x11,
            macos,
        )[i] is Command);
    assert forall|i: int| 0 <= i < methods@.len() - 2 implies (
        #[trigger] methods@[i])@ is Command by {
        assert(shown[i] == useful_programs(wayland, x11, macos)[i]);
    }
    assert(shown[shown.len() - 1] == MethodModel::Terminal);
    assert(shown[shown.len() - 2] == MethodModel::Desktop);
    if wayland {
        assert(shown[0] == MethodModel::Command("wl-copy"@, Seq::empty()));
    }
}

/// What failed in copying is told with the way that failed, all of it one after the other.
pub proof fn failed_copies_are_told(
    method: CopyMethod,
    error: &str,
    errors: Vec<String>,
    text: String,
)
    ensures
        call_ensures(copy_error, (&method, error), text) && method@ == MethodModel::Terminal
            ==> text@ == "osc52"@ + ": "@ + error@,
        call_ensures(copy_error, (&method, error), text) && method@ == MethodModel::Desktop
            ==> text@ == "arboard"@ + ": "@ + error@,
        call_ensures(copy_error, (&method, error), text) && method@ is Command ==> text@
            == method@->Command_0 + ": "@ + error@,
        call_ensures(copy_failure, (&errors,), text) ==> text@ == joined(texts(errors@), "; "@),
        call_ensures(copy_failed_message, (error,), text) ==> text@ == "Clipboard copy failed: "@
            + error@,
{
}

/// A row stands out where its line is selected.
pub proof fn selected_rows_stand_out(view: &LogView, line: usize, emphasis: Emphasis)
    requires
        call_ensures(row_emphasis, (view, line), emphasis),
        view.selection_anchor is None,
    ensures
        line == view.selected ==> emphasis == Emphasis::Selected,
        line != view.selected ==> emphasis == Emphasis::Plain,
{
}

// ---------------------------------------------------------------------------------------------
// Settings, keys and the engine
// ---------------------------------------------------------------------------------------------

/// Without a configuration file the theme is graphite, stopped containers are hidden, four hundred
/// lines are read back, timestamps are shown, and no key is bound otherwise.
pub proof fn defaults_hold(config: AppConfig)
    requires
        call_ensures(AppConfig::default, (), config),
    ensures
        config.theme == ThemeName::Graphite,
        !config.show_stopped_by_default,
        config.log_backlog_lines == 400,
        config.show_timestamps,
        config.keymap.quit is None && config.keymap.copy is None
            && config.keymap.toggle_stopped is None && config.keymap.start_stop is None
            && config.keymap.restart is None && config.keymap.remove is None,
{
}

/// A key has a binding where its name is that of the binding, in any case; the configured binding
/// counts where there is one.
pub proof fn keys_are_bound_by_name(
    key: KeyEvent,
    configured: Option<String>,
    default: &str,
    bound: bool,
)
    requires
        call_ensures(matches_binding, (key, &configured, default, None), bound),
        !(key.code is Char),
    ensures
        configured is Some ==> (bound <==> same_but_case(
            key_name(key),
            configured->0@,
        )),
        configured is None ==> (bound <==> same_but_case(key_name(key), default@)),
{
    crate::text_laws::lowering_forgets_the_case_alone(key_name(key), default@);
    if configured is Some {
        crate::text_laws::lowering_forgets_the_case_alone(
            key_name(key),
            configured->0@,
        );
    }
}

/// Whatever happens in the engine, the containers are listed anew; a stream that is over is opened
/// anew after two seconds, and told where it broke off.
pub proof fn notices_are_followed_up(notice: EngineNotice, step: NoticeStep)
    requires
        call_ensures(engine_notice, (notice,), step),
    ensures
        notice is Happened ==> (step matches NoticeStep::Ask(command)
            && command is RefreshContainers),
        notice is Ended ==> (step matches NoticeStep::Reopen { report, millis } && report is None
            && millis == 2000),
        notice matches EngineNotice::Failed(error) ==> (step matches NoticeStep::Reopen {
            report,
            millis,
        } && millis == 2000 && (report matches Some(DockerEvent::OperationFailed(text)) && text@
            == "Docker event stream disconnected: "@ + error@)),
{
    if let NoticeStep::Ask(command) = step {
        assert(command@ is RefreshContainers ==> command is RefreshContainers);
    }
}

/// A watch does what its state says of what happens.
pub proof fn the_watch_moves_on(
    watcher: &mut LogWatcher,
    event: WatchEvent,
    actions: Vec<WatchAction>,
)
    requires
        call_ensures(LogWatcher::step, (watcher, event), actions),
    ensures
        (final(watcher)@, action_models(actions@)) == old(watcher)@.stepped(event),
{
}

/// A line that the replay gate lets pass does not pass again.
pub proof fn accepted_lines_do_not_pass_again(
    gate: &mut LogReplayGate,
    entry: LogEntry,
    accepted: bool,
)
    requires
        call_ensures(LogReplayGate::accepts, (gate, &entry), accepted),
    ensures
        !final(gate)@.is_new(entry@),
        accepted == old(gate)@.is_new(entry@),
        !accepted ==> final(gate)@ == old(gate)@,
{
    crate::stream::remembered_lines_are_refused(old(gate)@, entry@);
}


// ---------------------------------------------------------------------------------------------
// Containers and lines in words
// ---------------------------------------------------------------------------------------------

/// A line is displayed with its timestamp where timestamps are shown and it has one.
pub proof fn lines_are_displayed(entry: LogEntry, show_timestamps: bool, text: String)
    ensures
        call_ensures(LogEntry::display, (&entry, show_timestamps), text) ==> text@ == (
        if show_timestamps && entry.timestamp is Some {
            entry.timestamp->0@ + seq![' '] + entry.plain_message@
        } else {
            entry.plain_message@
        }),
        call_ensures(LogEntry::display_raw, (&entry, show_timestamps), text) ==> text@ == (
        if show_timestamps && entry.timestamp is Some {
            entry.timestamp->0@ + seq![' '] + entry.message@
        } else {
            entry.message@
        }),
{
}

/// A container answers to a query as its fields do.
pub proof fn queries_are_answered(record: ContainerRecord, query: &str, answers: bool)
    requires
        call_ensures(ContainerRecord::matches_query, (&record, query), answers),
    ensures
        answers <==> (all_white(query@) || holds(record.id@, query@) || holds(
            record.short_id@,
            query@,
        ) || holds(record.name@, query@) || holds(record.image@, query@) || holds(
            record.command@,
            query@,
        ) || (record.project is Some && holds(record.project->0@, query@)) || (
        record.service is Some && holds(record.service->0@, query@))),
{
    containers_answer_to_what_they_hold(record@, query@);
}

/// Ports and health are told in words.
pub proof fn containers_are_told(record: ContainerRecord, port: PortMapping, text: String)
    ensures
        call_ensures(ContainerRecord::ports_summary, (&record,), text) ==> text@
            == record@.ports_line(),
        call_ensures(PortMapping::display, (&port,), text) ==> text@ == port@.shown(),
{
}

/// The health of a container is told, or a dash.
pub proof fn health_is_told(record: &ContainerRecord, text: &str)
    requires
        call_ensures(ContainerRecord::health_label, (record,), text),
    ensures
        record.health matches Some(health) ==> text@ == health@,
        record.health is None ==> text@ == "-"@,
{
}

/// The filters let a container through that runs, or any where stopped ones are shown; of the
/// project that is asked for; and that answers to the query.
pub proof fn filters_let_through(
    containers: &[ContainerRecord],
    show_stopped: bool,
    project: Option<&str>,
    query: Option<&str>,
    result: Vec<&ContainerRecord>,
    record: ContainerRecord,
)
    requires
        call_ensures(
            apply_container_filters,
            (containers, show_stopped, project, query),
            result,
        ),
    ensures
        result@.unref().contains(record) <==> {
            &&& containers@.contains(record)
            &&& show_stopped || record@.running()
            &&& project matches Some(name) ==> record@.project == Some(name@)
            &&& query matches Some(text) ==> record@.matches(text@)
        },
{
    passing_is_complete(containers@, show_stopped, str_of(project), str_of(query), record);
}

/// What cannot be read is told in words.
pub proof fn errors_are_told(text: &'static str)
    ensures
        call_ensures(SummaryError::message, (SummaryError::NotAnObject,), text) ==> text@
            == "container summary must be a JSON object"@,
        call_ensures(DetailsError::message, (DetailsError::Gone,), text) ==> text@
            == "container no longer available"@,
{
}

/// A tab hands out its own rows.
pub proof fn tabs_hand_out_their_rows(
    details: &ContainerDetails,
    tab: DetailTab,
    items: &[DetailItem],
)
    requires
        call_ensures(ContainerDetails::items_for_tab, (details, tab), items),
    ensures
        tab == DetailTab::Overview || tab == DetailTab::Logs ==> items@ == details.overview@,
        tab == DetailTab::Env ==> items@ == details.env@,
        tab == DetailTab::Ports ==> items@ == details.ports@,
        tab == DetailTab::Mounts ==> items@ == details.mounts@,
        tab == DetailTab::Health ==> items@ == details.health@,
{
}

// ---------------------------------------------------------------------------------------------
// What the program hands out
// ---------------------------------------------------------------------------------------------

/// The selected container is the first one with the selected identifier.
pub proof fn the_selected_container_is_handed_out(app: &App, container: Option<&ContainerRecord>)
    requires
        call_ensures(App::selected_container, (app,), container),
    ensures
        container matches Some(record) ==> text_of(app.selected_id) == Some(record.id@)
            && app.containers@.contains(*record),
        container is None && app.selected_id is Some ==> forall|i: int|
            0 <= i < app.containers@.len() ==> (#[trigger] app.containers@[i]).id@
                != app.selected_id->0@,
{
    if app.selected_id is Some {
        crate::laws::position_is_first(app.containers@, app.selected_id->0@, 0);
    }
    if container is Some {
        crate::key_laws::the_selected_container_has_the_identifier(app@);
    }
    if container is None && app.selected_id is Some {
        assert forall|i: int| 0 <= i < app.containers@.len() implies (
            #[trigger] app.containers@[i]).id@ != app.selected_id->0@ by {
            assert(app.containers@[i]@.id == app.containers@[i].id@);
        }
    }
}

/// The position of the selected container in the list is where it stands.
pub proof fn the_selected_row_is_handed_out(app: &App, index: Option<usize>)
    requires
        call_ensures(App::selected_visible_index, (app,), index),
    ensures
        index matches Some(i) ==> i < app@.visible().len() && text_of(app.selected_id) == Some(
            app@.visible()[i as int].id@,
        ),
        app.selected_id is None ==> index is None,
{
    if app.selected_id is Some {
        crate::laws::position_is_first(app@.visible(), app.selected_id->0@, 0);
    }
    if index is Some {
        assert(app@.visible()[index->0 as int]@.id == app@.visible()[index->0 as int].id@);
    }
}

/// The rows, the selected row, the help, the areas and the scrollbars that are handed out are
/// those of the state.
pub proof fn the_state_is_handed_out(
    app: &App,
    items: &[DetailItem],
    index: usize,
    help: String,
    layout: AppLayout,
    target: ScrollbarTarget,
    metrics: ScrollMetrics,
    rows: Vec<VisibleLogRow>,
)
    ensures
        call_ensures(App::selected_detail_items, (app,), items) && app.details is Some ==> items@
            == tab_rows(app.details->0, app.detail_tab),
        call_ensures(App::selected_detail_items, (app,), items) && app.details is None
            ==> items@.len() == 0,
        call_ensures(App::selected_detail_index, (app,), index) ==> index == app.detail_cursor@[
            tab_index(app.detail_tab) as int
        ],
        call_ensures(App::help_text, (app,), help) ==> help@ == app@.help(),
        call_ensures(App::layout, (app,), layout) ==> layout == layout_of(app.sections),
        call_ensures(App::scroll_metrics, (app, target), metrics) ==> metrics == app@.metrics(
            target,
        ),
        call_ensures(App::visible_log_rows, (app,), rows) ==> row_models(rows@)
            == app.logs@.visible(app@.log_rows(), app@.log_columns()),
{
}

/// The program starts with the sections of a screen without any area, and asks for nothing.
pub proof fn the_program_starts(
    runtime: RuntimeConfig,
    config_path: Option<String>,
    app: App,
    commands: Vec<UiCommand>,
)
    ensures
        call_ensures(App::new, (runtime, config_path), app) ==> app@ == started(
            runtime,
            text_of(config_path),
            app.sections,
        ),
        call_ensures(App::bootstrap_commands, (&app,), commands) ==> ui_models(commands@).len()
            == 0,
{
}

// ---------------------------------------------------------------------------------------------
// Texts of the terminal
// ---------------------------------------------------------------------------------------------

/// Escape sequences are taken out of a text, or read as styles of the characters that are left;
/// wrapped, the characters stay as they are.
pub proof fn texts_keep_their_characters(
    text: &str,
    plain: String,
    chunks: Vec<StyledChunk>,
    again: String,
)
    requires
        call_ensures(strip_ansi, (text,), plain),
        call_ensures(parse_ansi, (text,), chunks),
        call_ensures(plain_text, (&chunks,), again),
    ensures
        plain@ == stripped(text@),
        again@ == plain@,
        flat(chunks@) == styled(text@, plain_style()),
{
    crate::ansi::colours_keep_the_text(text@, plain_style());
}

/// Wrapped lines are those of a greedy wrap to the width, or to one column where it is none.
pub proof fn chunks_are_wrapped(
    chunks: Vec<StyledChunk>,
    width: usize,
    lines: Vec<Vec<StyledChunk>>,
)
    requires
        call_ensures(wrap_chunks, (&chunks, width), lines),
        width >= 1,
    ensures
        flat_lines(lines@) == wrapped(
            flat(chunks@),
            columns_of(flat(chunks@)),
            width as nat,
        ).0,
        flat_lines(lines@).flatten() == flat(chunks@),
{
    crate::ansi::wrapping_keeps_the_text(
        flat(chunks@),
        columns_of(flat(chunks@)),
        width as nat,
    );
}

/// What is shown of a row, a label, a scrollbar and a key is what is said of them.
pub proof fn small_things_are_shown(
    content: String,
    query: &str,
    text: RowText,
    label: &str,
    wide: String,
    height: u16,
    top: u16,
    length: u16,
    rows: Vec<bool>,
    key: KeyEvent,
    logs: &LogView,
    line: String,
)
    ensures
        call_ensures(highlight_search, (content, query), text) ==> text@ == marked_text(
            content@,
            query@,
        ),
        call_ensures(padded_label, (label,), wide) ==> label@.is_prefix_of(wide@) && wide@.len() == (
        if label@.len() < 18 {
            18
        } else {
            label@.len()
        }),
        call_ensures(scrollbar_rows, (height, top, length), rows) ==> rows@ == thumb_rows(
            height,
            top,
            length,
        ),
        call_ensures(render_key_event, (key,), line) ==> line@ == key_name(key),
        call_ensures(log_subtitle, (logs,), line) && logs.filter_mode == LogFilterMode::Substring
            ==> line@ == notes(logs@, None),
{
    assert(crate::ui::padded(label@, 18).subrange(0, label@.len() as int) =~= label@);
}

/// How much was copied is told in bytes.
pub proof fn copies_are_told(text: &str, message: String)
    requires
        call_ensures(copied_message, (text,), message),
        encode_utf8(text@).len() <= usize::MAX,
    ensures
        message@ == "Copied "@ + decimal(encode_utf8(text@).len()) + " bytes to the clipboard"@,
{
}

/// Output is read line by line, under the name of its stream.
pub proof fn output_is_read(
    output: LogOutput,
    stream: &str,
    message: &str,
    entries: Vec<LogEntry>,
)
    ensures
        call_ensures(parse_log_output, (output,), entries) ==> entry_models(entries@)
            == output_entries(output),
        call_ensures(split_log_lines, (stream, message), entries) ==> entry_models(entries@)
            == entries_of(stream@, message@),
{
}

/// A theme is named in any case, with white space round it or without.
pub proof fn themes_are_named(value: &str, theme: Option<ThemeName>)
    requires
        call_ensures(ThemeName::from_str, (value,), theme),
    ensures
        same_but_case(trimmed(value@), "graphite"@) ==> theme == Some(ThemeName::Graphite),
        theme == Some(ThemeName::Graphite) ==> same_but_case(trimmed(value@), "graphite"@),
        theme == Some(ThemeName::Ember) ==> same_but_case(trimmed(value@), "ember"@),
        theme == Some(ThemeName::Ocean) ==> same_but_case(trimmed(value@), "ocean"@),
        theme is None ==> !same_but_case(trimmed(value@), "graphite"@) && !same_but_case(
            trimmed(value@),
            "ember"@,
        ) && !same_but_case(trimmed(value@), "ocean"@),
{
    crate::text_laws::lowering_forgets_the_case_alone(trimmed(value@), "graphite"@);
    crate::text_laws::lowering_forgets_the_case_alone(trimmed(value@), "ember"@);
    crate::text_laws::lowering_forgets_the_case_alone(trimmed(value@), "ocean"@);
}


/// The backlog is kept line by line and handed out whole, before the log is said to be ready.
pub proof fn the_backlog_is_handed_out(
    watcher: &mut LogWatcher,
    output: LogOutput,
    events: Vec<DockerEvent>,
    done: (),
)
    ensures
        call_ensures(LogWatcher::read_backlog, (watcher, output), done) ==> final(watcher)@.backlog
            == old(watcher)@.backlog + output_entries(output),
        call_ensures(LogWatcher::finish_backlog, (watcher,), events) ==> {
            &&& final(watcher)@.backlog.len() == 0
            &&& old(watcher)@.backlog.len() > 0 ==> event_models(events@) == seq![
                EventModel::LogChunk { id: old(watcher).id@, entries: old(watcher)@.backlog },
                EventModel::LogsReady { id: old(watcher).id@ },
            ]
            &&& old(watcher)@.backlog.len() == 0 ==> event_models(events@) == seq![
                EventModel::LogsReady { id: old(watcher).id@ },
            ]
        },
{
}

/// Of the followed log the lines that the replay gate lets pass are handed out, and nothing is
/// where none passes; that something came is noted.
pub proof fn new_lines_are_handed_out(
    watcher: &mut LogWatcher,
    output: LogOutput,
    event: Option<DockerEvent>,
    since: i32,
)
    ensures
        call_ensures(LogWatcher::read_stream, (watcher, output), event) ==> {
            let fresh = passed(old(watcher)@.gate, output_entries(output)).1;
            &&& event is None <==> fresh.len() == 0
            &&& event matches Some(news) ==> news@ == (EventModel::LogChunk {
                id: old(watcher).id@,
                entries: fresh,
            }) && final(watcher).saw_bytes
            &&& final(watcher).since == since_after(old(watcher).since, fresh)
        },
        call_ensures(LogWatcher::open_stream, (watcher,), since) ==> since == old(watcher).since
            && !final(watcher).saw_bytes,
{
    assert(final(watcher)@.saw_bytes == final(watcher).saw_bytes);
    assert(final(watcher)@.since == final(watcher).since);
}

/// A log is opened with an emptied view, told where it broke off, and opened anew where something
/// came.
pub proof fn logs_are_opened(
    watcher: &LogWatcher,
    error: &str,
    event: DockerEvent,
    reopens: bool,
)
    ensures
        call_ensures(LogWatcher::opening, (watcher,), event) ==> event@ == (EventModel::LogsReset {
            id: watcher.id@,
        }),
        call_ensures(LogWatcher::stream_dropped, (watcher, error), event) ==> event@
            == EventModel::OperationFailed(
            "Log stream dropped for "@ + watcher.id@ + ": "@ + error@,
        ),
        call_ensures(LogWatcher::reopens, (watcher,), reopens) ==> reopens == watcher.saw_bytes,
{
}

} // verus!
