//! Laws of the mouse: what a click selects is what is drawn under it.

use crate::keys::{MouseButton, MouseEvent, MouseEventKind};
use crate::layout::{covers, on_screen, regions_from, tab_regions, Rect};
use crate::logs::LogModel;
use crate::state::{tab_at, AppModel, Focus, ScrollbarTarget, UiModel};
use crate::tab::DetailTab;
use vstd::prelude::*;

verus! {

/// The mouse does something that is heeded: no text is typed, no removal is to be confirmed, and
/// the sections lie on a screen whose columns and rows can all be numbered.
pub open spec fn is_heeded(app: AppModel) -> bool {
    &&& !app.confirm_remove
    &&& app.input is None
    &&& on_screen(app.sections, app.viewport)
    &&& app.viewport.x + app.viewport.width <= 65535
    &&& app.viewport.y + app.viewport.height <= 65535
}

/// The left button is pressed at a point.
pub open spec fn is_click(mouse: MouseEvent, x: int, y: int) -> bool {
    &&& mouse.kind == MouseEventKind::Down(MouseButton::Left)
    &&& mouse.column == x
    &&& mouse.row == y
}

/// A row of an area is inside its border, and so is a column, left of the scrollbar.
pub open spec fn is_inside(area: Rect, x: int, y: int) -> bool {
    &&& area.x < x < area.x + area.width - 2
    &&& area.y < y < area.y + area.height - 1
}

/// A click in the container list, some rows below its heading, selects the container that is
/// drawn there: the list shows its containers from its offset on. A click below the last
/// container selects none.
pub proof fn a_click_selects_the_container_under_it(
    app: AppModel,
    mouse: MouseEvent,
    x: int,
    below: int,
)
    requires
        is_heeded(app),
        app.container_offset >= 0,
        below >= 0,
        is_inside(app.sections.containers, x, app.sections.containers.y + 2 + below),
        is_click(mouse, x, app.sections.containers.y + 2 + below),
    ensures
        app.after_mouse(mouse).0.focus == Focus::Containers,
        app.container_offset + below < app.visible().len() ==> app.after_mouse(mouse).0.selected_id
            == Some(app.visible().skip(app.container_offset)[below]@.id),
        app.container_offset + below >= app.visible().len() ==> app.after_mouse(
            mouse,
        ).0.selected_id == app.selected_id,
        app.after_mouse(mouse).0.containers == app.containers,
{
    assert(covers(app.layout().container_view, mouse.column, mouse.row));
    assert(app.scrollbar_at(mouse.column, mouse.row) is None);
}

/// A click on the heading of the container list selects no container.
pub proof fn a_click_on_the_heading_selects_nothing(app: AppModel, mouse: MouseEvent, x: int)
    requires
        is_heeded(app),
        is_inside(app.sections.containers, x, app.sections.containers.y + 1),
        is_click(mouse, x, app.sections.containers.y + 1),
    ensures
        app.after_mouse(mouse) == (
            AppModel { focus: Focus::Containers, ..app },
            Seq::<UiModel>::empty(),
        ),
{
    assert(covers(app.layout().container_view, mouse.column, mouse.row));
    assert(app.scrollbar_at(mouse.column, mouse.row) is None);
}

/// A click in a tab other than the log selects the row that is drawn under it: the tab shows its
/// rows from its offset on. A click below the last row selects the last one.
pub proof fn a_click_selects_the_row_under_it(
    app: AppModel,
    mouse: MouseEvent,
    x: int,
    below: int,
)
    requires
        is_heeded(app),
        app.detail_tab != DetailTab::Logs,
        app.detail_cursor.len() == 6,
        app.detail_offset >= 0,
        0 < app.items().len() <= usize::MAX,
        below >= 0,
        is_inside(app.sections.detail, x, app.sections.detail.y + 1 + below),
        is_click(mouse, x, app.sections.detail.y + 1 + below),
    ensures
        app.after_mouse(mouse).0.focus == Focus::Detail,
        app.after_mouse(mouse).0.detail_tab == app.detail_tab,
        app.detail_offset + below < app.items().len() ==> app.after_mouse(mouse).0.cursor()
            == app.detail_offset + below,
        app.detail_offset + below >= app.items().len() ==> app.after_mouse(mouse).0.cursor()
            == app.items().len() - 1,
        app.after_mouse(mouse).0.selected_id == app.selected_id,
        app.after_mouse(mouse).1.len() == 0,
{
    assert(covers(app.layout().detail_view, mouse.column, mouse.row));
    assert(!covers(app.layout().detail_tabs_inner, mouse.column, mouse.row));
    assert(!covers(app.layout().container_view, mouse.column, mouse.row));
    assert(app.scrollbar_at(mouse.column, mouse.row) is None);
}

/// The rows that a log view shows belong to its filtered lines.
proof fn shown_rows_are_lines(app: AppModel, row: int)
    requires
        0 <= row < app.logs.visible(app.log_rows(), app.log_columns()).len(),
        app.logs.scroll_top >= 0,
    ensures
        0 <= app.logs.visible(app.log_rows(), app.log_columns())[row].0
            < app.logs.filtered().len(),
{
    let width = if app.log_columns() < 1 {
        1
    } else {
        app.log_columns() as usize
    };
    rows_are_of_lines(app.logs, app.logs.scroll_top, width, row);
}

/// The rows from a line on belong to lines.
proof fn rows_are_of_lines(view: LogModel, from: int, width: usize, row: int)
    requires
        from >= 0,
        0 <= row < crate::logs::rows_from(
            view.filtered(),
            from,
            view.show_timestamps,
            view.wrap,
            width,
        ).len(),
    ensures
        0 <= crate::logs::rows_from(
            view.filtered(),
            from,
            view.show_timestamps,
            view.wrap,
            width,
        )[row].0 < view.filtered().len(),
    decreases view.filtered().len() - from,
{
    if from < view.filtered().len() {
        let own = crate::logs::line_rows(
            from,
            crate::logs::line_texts(
                view.filtered()[from]@.shown(view.show_timestamps),
                view.wrap,
                width,
            ),
        );
        if row >= own.len() {
            rows_are_of_lines(view, from + 1, width, row - own.len());
        }
    }
}

/// A click in the log selects the line whose row is drawn under it, begins a range there, and no
/// longer follows the end.
pub proof fn a_click_selects_the_line_under_it(
    app: AppModel,
    mouse: MouseEvent,
    x: int,
    below: int,
)
    requires
        is_heeded(app),
        app.detail_tab == DetailTab::Logs,
        app.logs.scroll_top >= 0,
        0 <= below < app.logs.visible(app.log_rows(), app.log_columns()).len(),
        is_inside(app.sections.detail, x, app.sections.detail.y + 1 + below),
        app.sections.detail.y + 1 + below < app.sections.detail.y + app.sections.detail.height - 2,
        is_click(mouse, x, app.sections.detail.y + 1 + below),
    ensures
        ({
            let line = app.logs.visible(app.log_rows(), app.log_columns())[below].0;
            let logs = app.after_mouse(mouse).0.logs;
            &&& logs.selected == line
            &&& logs.selection_anchor == Some(line)
            &&& logs.selection_end == Some(line)
            &&& logs.drag_active
            &&& !logs.follow
            &&& logs.entries == app.logs.entries
        }),
        app.after_mouse(mouse).0.focus == Focus::Detail,
        app.after_mouse(mouse).1.len() == 0,
{
    assert(covers(app.layout().logs_view, mouse.column, mouse.row));
    assert(!covers(app.layout().detail_tabs_inner, mouse.column, mouse.row));
    assert(!covers(app.layout().container_view, mouse.column, mouse.row));
    assert(app.scrollbar_at(mouse.column, mouse.row) is None);
    shown_rows_are_lines(app, below);
}

/// Drawing the mouse over the log draws the range on to the line whose row is drawn under it.
pub proof fn drawing_extends_the_range(app: AppModel, mouse: MouseEvent, x: int, below: int)
    requires
        is_heeded(app),
        app.detail_tab == DetailTab::Logs,
        app.scrollbar_drag is None,
        app.logs.drag_active,
        !app.logs.follow,
        app.logs.scroll_top >= 0,
        0 <= below < app.logs.visible(app.log_rows(), app.log_columns()).len(),
        is_inside(app.sections.detail, x, app.sections.detail.y + 1 + below),
        app.sections.detail.y + 1 + below < app.sections.detail.y + app.sections.detail.height - 2,
        mouse.kind == MouseEventKind::Drag(MouseButton::Left),
        mouse.column == x,
        mouse.row == app.sections.detail.y + 1 + below,
    ensures
        ({
            let line = app.logs.visible(app.log_rows(), app.log_columns())[below].0;
            let logs = app.after_mouse(mouse).0.logs;
            &&& logs.selected == line
            &&& logs.selection_anchor == app.logs.selection_anchor
            &&& logs.selection_end == Some(line)
            &&& logs.drag_active
        }),
{
    assert(covers(app.layout().logs_view, mouse.column, mouse.row));
    shown_rows_are_lines(app, below);
}

/// Letting the button go ends the drawing of a range and of a scrollbar, and keeps the range.
pub proof fn letting_go_keeps_the_range(app: AppModel, mouse: MouseEvent)
    requires
        is_heeded(app),
        mouse.kind == MouseEventKind::Up(MouseButton::Left),
    ensures
        !app.after_mouse(mouse).0.logs.drag_active,
        app.after_mouse(mouse).0.scrollbar_drag is None,
        app.after_mouse(mouse).0.logs.selection_anchor == app.logs.selection_anchor,
        app.after_mouse(mouse).0.logs.selection_end == app.logs.selection_end,
        app.after_mouse(mouse).0.logs.selected == app.logs.selected,
        app.after_mouse(mouse).0.selected_id == app.selected_id,
{
}

/// The columns of the tabs' titles, from the first column inside the border of the tabs: each
/// title has two columns at each side, and a divider stands between two tabs.
pub open spec fn tab_in_column(column: int) -> Option<DetailTab> {
    if 0 <= column < 8 {
        Some(DetailTab::Logs)
    } else if 9 <= column < 21 {
        Some(DetailTab::Overview)
    } else if 22 <= column < 29 {
        Some(DetailTab::Env)
    } else if 30 <= column < 39 {
        Some(DetailTab::Ports)
    } else if 40 <= column < 50 {
        Some(DetailTab::Mounts)
    } else if 51 <= column < 61 {
        Some(DetailTab::Health)
    } else {
        None
    }
}

/// The titles stand in their columns where there is room for all of them.
proof fn titles_have_their_columns(inner: Rect)
    requires
        inner.width >= 61,
        inner.x + inner.width <= 65535,
    ensures
        ({
            let x = inner.x as int;
            tab_regions(inner) == seq![
                (DetailTab::Logs, x, x + 8),
                (DetailTab::Overview, x + 9, x + 21),
                (DetailTab::Env, x + 22, x + 29),
                (DetailTab::Ports, x + 30, x + 39),
                (DetailTab::Mounts, x + 40, x + 50),
                (DetailTab::Health, x + 51, x + 61),
            ]
        }),
{
    reveal_strlit("Logs");
    reveal_strlit("Overview");
    reveal_strlit("Env");
    reveal_strlit("Ports");
    reveal_strlit("Mounts");
    reveal_strlit("Health");
    reveal_with_fuel(regions_from, 7);
    let x = inner.x as int;
    assert(tab_regions(inner) =~= seq![
        (DetailTab::Logs, x, x + 8),
        (DetailTab::Overview, x + 9, x + 21),
        (DetailTab::Env, x + 22, x + 29),
        (DetailTab::Ports, x + 30, x + 39),
        (DetailTab::Mounts, x + 40, x + 50),
        (DetailTab::Health, x + 51, x + 61),
    ]);
}

/// A click on the title of a tab shows the tab, and one beside the titles shows no other tab.
pub proof fn a_click_shows_the_tab_under_it(
    app: AppModel,
    mouse: MouseEvent,
    column: int,
)
    requires
        is_heeded(app),
        app.sections.tabs.width >= 63,
        app.sections.tabs.height >= 3,
        0 <= column < app.sections.tabs.width - 2,
        is_click(mouse, app.sections.tabs.x + 1 + column, app.sections.tabs.y + 1),
    ensures
        app.after_mouse(mouse).0.detail_tab == (match tab_in_column(column) {
            Some(tab) => tab,
            None => app.detail_tab,
        }),
        app.after_mouse(mouse).0.focus == Focus::Detail,
        app.after_mouse(mouse).0.selected_id == app.selected_id,
        app.after_mouse(mouse).1.len() == 0,
{
    let inner = app.layout().detail_tabs_inner;
    assert(covers(inner, mouse.column, mouse.row));
    assert(!covers(app.layout().container_view, mouse.column, mouse.row));
    assert(app.scrollbar_at(mouse.column, mouse.row) is None);
    titles_have_their_columns(inner);
    reveal_with_fuel(tab_at, 8);
}

/// Turning the wheel over the log moves the selected line by one, down or up.
pub proof fn the_wheel_moves_the_line(app: AppModel, mouse: MouseEvent)
    requires
        is_heeded(app),
        app.detail_tab == DetailTab::Logs,
        0 <= app.logs.selected < app.logs.filtered().len(),
        covers(app.sections.detail, mouse.column, mouse.row),
    ensures
        mouse.kind == MouseEventKind::ScrollDown && app.logs.selected + 1
            < app.logs.filtered().len() ==> app.after_mouse(mouse).0.logs.selected
            == app.logs.selected + 1,
        mouse.kind == MouseEventKind::ScrollUp && app.logs.selected > 0 ==> app.after_mouse(
            mouse,
        ).0.logs.selected == app.logs.selected - 1,
        mouse.kind == MouseEventKind::ScrollUp && app.logs.filtered().len() > 1 ==> !app.after_mouse(
            mouse,
        ).0.logs.follow,
{
}

/// Turning the wheel over the container list selects the next container, or the one before.
pub proof fn the_wheel_moves_the_container(app: AppModel, mouse: MouseEvent, row: int)
    requires
        is_heeded(app),
        app.selected_row() == Some(row),
        0 <= row < app.visible().len(),
        covers(app.sections.containers, mouse.column, mouse.row),
    ensures
        mouse.kind == MouseEventKind::ScrollDown && row + 1 < app.visible().len()
            ==> app.after_mouse(mouse).0.selected_id == Some(app.visible()[row + 1]@.id),
        mouse.kind == MouseEventKind::ScrollUp && row > 0 ==> app.after_mouse(mouse).0.selected_id
            == Some(app.visible()[row - 1]@.id),
{
    assert(!covers(app.sections.detail, mouse.column, mouse.row));
}

/// A press on a scrollbar takes hold of what that scrollbar scrolls.
pub proof fn a_press_takes_hold_of_the_scrollbar(app: AppModel, mouse: MouseEvent, y: int)
    requires
        is_heeded(app),
        mouse.kind == MouseEventKind::Down(MouseButton::Left),
        mouse.row == y,
    ensures
        app.sections.containers.width >= 3 && mouse.column == app.sections.containers.x
            + app.sections.containers.width - 2 && app.sections.containers.y + 1 < y
            < app.sections.containers.y + app.sections.containers.height - 1 ==> app.after_mouse(
            mouse,
        ).1 == seq![
            UiModel::GrabScrollbar { target: ScrollbarTarget::Containers, y: mouse.row },
        ],
        app.sections.detail.width >= 3 && mouse.column == app.sections.detail.x
            + app.sections.detail.width - 2 && app.sections.detail.y < y < app.sections.detail.y
            + app.sections.detail.height - 2 ==> app.after_mouse(mouse).1 == seq![
            UiModel::GrabScrollbar {
                target: if app.detail_tab == DetailTab::Logs {
                    ScrollbarTarget::Logs
                } else {
                    ScrollbarTarget::Detail
                },
                y: mouse.row,
            },
        ],
        app.after_mouse(mouse).1.len() > 0 && app.after_mouse(mouse).1[0] is GrabScrollbar
            ==> app.after_mouse(mouse).0.selected_id == app.selected_id,
{
}


/// Turning the wheel over a tab other than the log moves its selected row by one.
pub proof fn the_wheel_moves_the_row(app: AppModel, mouse: MouseEvent)
    requires
        is_heeded(app),
        app.detail_tab != DetailTab::Logs,
        app.detail_cursor.len() == 6,
        app.cursor() < app.items().len() <= usize::MAX,
        covers(app.sections.detail, mouse.column, mouse.row),
    ensures
        mouse.kind == MouseEventKind::ScrollDown && app.cursor() + 1 < app.items().len()
            ==> app.after_mouse(mouse).0.cursor() == app.cursor() + 1,
        mouse.kind == MouseEventKind::ScrollUp && app.cursor() > 0 ==> app.after_mouse(
            mouse,
        ).0.cursor() == app.cursor() - 1,
        mouse.kind == MouseEventKind::ScrollDown || mouse.kind == MouseEventKind::ScrollUp
            ==> app.after_mouse(mouse).0.focus == Focus::Detail && app.after_mouse(mouse).1.len()
            == 0,
{
    assert(!covers(app.sections.containers, mouse.column, mouse.row));
}

/// The other buttons and movements of the mouse do nothing.
pub proof fn other_movements_do_nothing(app: AppModel, mouse: MouseEvent)
    requires
        mouse.kind == MouseEventKind::Moved || mouse.kind == MouseEventKind::ScrollLeft || mouse.kind
            == MouseEventKind::ScrollRight || mouse.kind == MouseEventKind::Down(
            MouseButton::Right,
        ) || mouse.kind == MouseEventKind::Down(MouseButton::Middle) || mouse.kind
            == MouseEventKind::Up(MouseButton::Right) || mouse.kind == MouseEventKind::Drag(
            MouseButton::Right,
        ),
    ensures
        app.after_mouse(mouse) == (app, Seq::<UiModel>::empty()),
{
}

/// A click on the status line or the foot does nothing.
pub proof fn a_click_below_does_nothing(app: AppModel, mouse: MouseEvent)
    requires
        is_heeded(app),
        mouse.kind == MouseEventKind::Down(MouseButton::Left),
        covers(app.sections.status, mouse.column, mouse.row) || covers(
            app.sections.footer,
            mouse.column,
            mouse.row,
        ),
        app.sections.tabs.y + app.sections.tabs.height <= app.sections.status.y,
    ensures
        app.after_mouse(mouse) == (app, Seq::<UiModel>::empty()),
{
}

/// Moving the mouse with the button held does nothing where nothing is held and no range is drawn.
pub proof fn an_idle_drag_does_nothing(app: AppModel, mouse: MouseEvent)
    requires
        mouse.kind == MouseEventKind::Drag(MouseButton::Left),
        app.scrollbar_drag is None,
        !app.logs.drag_active,
    ensures
        app.after_mouse(mouse) == (app, Seq::<UiModel>::empty()),
{
}

} // verus!
