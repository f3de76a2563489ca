//! Laws of the program as a whole.

use crate::app::started;
use crate::config::RuntimeConfig;
use crate::docker::{ContainerAction, DockerEvent, RequestModel};
use crate::keys::{KeyCode, KeyEvent, MouseEvent};
use crate::layout::{selection_is_in_the_window, Rect, Sections};
use crate::logs::newest_lines_are_kept;
use crate::model::{
    passing_is_complete, stably_sorted, the_order_is_determined, ContainerRecord,
};
use crate::state::{
    asked_for, first_such, is_named, position, running_count, AppModel, Focus, InputKind,
    ScrollbarTarget, UiModel,
};
use crate::tab::{all_tabs, tabs_stand_at_their_index};
use crate::text::decimal;
use vstd::prelude::*;

verus! {

// ---------------------------------------------------------------------------------------------
// Positions
// ---------------------------------------------------------------------------------------------

/// The first container with an identifier is found if there is one.
pub proof fn position_is_first(records: Seq<ContainerRecord>, id: Seq<char>, from: int)
    requires
        0 <= from,
    ensures
        match position(records, id, from) {
            Some(i) => from <= i < records.len() && records[i]@.id == id && forall|j: int|
                from <= j < i ==> (#[trigger] records[j])@.id != id,
            None => forall|j: int| from <= j < records.len() ==> (#[trigger] records[j])@.id != id,
        },
    decreases records.len() - from,
{
    if from < records.len() && records[from]@.id != id {
        position_is_first(records, id, from + 1);
    }
}

/// The first container that a condition holds of is found if there is one.
pub proof fn first_such_is_first(
    records: Seq<ContainerRecord>,
    condition: spec_fn(ContainerRecord) -> bool,
    from: int,
)
    requires
        0 <= from,
    ensures
        match first_such(records, condition, from) {
            Some(i) => from <= i < records.len() && condition(records[i]) && forall|j: int|
                from <= j < i ==> !condition(#[trigger] records[j]),
            None => forall|j: int| from <= j < records.len() ==> !condition(#[trigger] records[j]),
        },
    decreases records.len() - from,
{
    if from < records.len() && !condition(records[from]) {
        first_such_is_first(records, condition, from + 1);
    }
}

/// Every listed container is among the containers.
pub proof fn listed_container_exists(app: AppModel, row: int)
    requires
        0 <= row < app.visible().len(),
    ensures
        app.containers.contains(app.visible()[row]),
        position(app.containers, app.visible()[row]@.id, 0) is Some,
        position(app.visible(), app.visible()[row]@.id, 0) is Some,
{
    let record = app.visible()[row];
    assert(app.visible().contains(record));
    passing_is_complete(
        app.containers,
        app.show_stopped,
        app.project_filter,
        None,
        record,
    );
    let i = choose|i: int| 0 <= i < app.containers.len() && app.containers[i] == record;
    position_is_first(app.containers, record@.id, 0);
    position_is_first(app.visible(), record@.id, 0);
    assert(app.containers[i]@.id == record@.id);
}

/// The container that becomes selected is listed.
pub proof fn next_container_is_listed(app: AppModel) -> (row: int)
    requires
        app.visible().len() > 0,
    ensures
        0 <= row < app.visible().len(),
        app.next_id() == app.visible()[row]@.id,
{
    match app.selected_row() {
        Some(row) => {
            position_is_first(app.visible(), app.selected_id->0, 0);
            row
        },
        None => match app.startup_container_query {
            Some(query) => {
                first_such_is_first(
                    app.visible(),
                    |record: ContainerRecord| is_named(record, query),
                    0,
                );
                first_such_is_first(
                    app.visible(),
                    |record: ContainerRecord| record@.matches(query),
                    0,
                );
                match asked_for(app.visible(), query) {
                    Some(row) => row,
                    None => 0,
                }
            },
            None => 0,
        },
    }
}

// ---------------------------------------------------------------------------------------------
// The selection
// ---------------------------------------------------------------------------------------------

/// After the list has changed, a listed container is selected if any is listed, and none if none
/// is.
pub proof fn a_listed_container_is_selected(app: AppModel)
    ensures
        app.visible().len() > 0 ==> app.reconciled().0.selected_row() is Some,
        app.visible().len() == 0 ==> app.reconciled().0.selected_id is None,
{
    if app.visible().len() > 0 {
        let row = next_container_is_listed(app);
        listed_container_exists(app, row);
        assert(app.reconciled().0.visible() == app.visible());
    }
}

/// A selected container that is still listed stays selected, and nothing that is known of it is
/// forgotten or asked for again.
pub proof fn a_listed_selection_is_kept(app: AppModel)
    requires
        app.selected_row() is Some,
    ensures
        app.reconciled().0.selected_id == app.selected_id,
        app.reconciled().0.details == app.details,
        app.reconciled().0.logs == app.logs,
        app.reconciled().1.len() == 0,
{
    position_is_first(app.visible(), app.selected_id->0, 0);
}

/// A container that the command line asks for by its full identifier, or by how its name begins,
/// is selected at the start if it is listed: the first such container.
pub proof fn the_asked_for_container_is_selected(app: AppModel, query: Seq<char>, row: int)
    requires
        app.selected_id is None,
        app.startup_container_query == Some(query),
        0 <= row < app.visible().len(),
        is_named(app.visible()[row], query),
        forall|i: int| 0 <= i < row ==> !is_named(#[trigger] app.visible()[i], query),
    ensures
        app.reconciled().0.selected_id == Some(app.visible()[row]@.id),
{
    first_such_is_first(app.visible(), |record: ContainerRecord| is_named(record, query), 0);
}

/// The query of the command line counts once: afterwards it is forgotten.
pub proof fn the_query_counts_once(app: AppModel)
    requires
        app.visible().len() > 0,
    ensures
        app.reconciled().0.startup_container_query is None,
{
}

/// When the list has been scrolled to the selected container, the container is visible.
pub proof fn the_selected_container_is_visible(app: AppModel)
    requires
        app.selected_row() is Some,
        app.container_offset >= 0,
    ensures
        app.list_in_view().selected_row() == app.selected_row(),
        0 <= app.list_in_view().container_offset <= app.selected_row()->0,
        app.selected_row()->0 < app.list_in_view().container_offset + app.list_rows(),
{
    position_is_first(app.visible(), app.selected_id->0, 0);
    selection_is_in_the_window(app.container_offset, app.selected_row()->0, app.list_rows());
}

/// A list that has been scrolled to the selected container stays where it is.
proof fn scrolling_again_changes_nothing(app: AppModel)
    ensures
        app.list_in_view().list_in_view() == app.list_in_view(),
{
    assert(app.list_in_view().visible() == app.visible());
}

/// A selection that has been brought in line with the list, and is scrolled to, stays as it is.
proof fn reconciling_again_changes_nothing(app: AppModel)
    ensures
        ({
            let settled = app.reconciled().0.list_in_view();
            settled.reconciled() == (settled, Seq::<UiModel>::empty())
        }),
{
    let shown = app.reconciled().0;
    let settled = shown.list_in_view();
    scrolling_again_changes_nothing(shown);
    assert(settled.list_in_view() == settled);
    assert(settled.visible() == app.visible());
    a_listed_container_is_selected(app);
    if app.visible().len() > 0 {
        position_is_first(settled.visible(), settled.selected_id->0, 0);
        assert(settled.next_id() == settled.selected_id->0);
        assert(settled == (AppModel {
            selected_id: settled.selected_id,
            startup_container_query: None,
            ..settled
        }));
    } else {
        assert(settled.logs.cleared() == settled.logs);
        assert(settled == (AppModel {
            selected_id: None,
            details: None,
            logs: settled.logs.cleared(),
            ..settled
        }));
    }
}

/// Listing the same containers again changes nothing and asks for nothing.
proof fn listing_again_changes_nothing(app: AppModel, containers: Seq<ContainerRecord>)
    ensures
        app.listing(containers).0.listing(containers) == (
            app.listing(containers).0,
            Seq::<UiModel>::empty(),
        ),
{
    let next = app.listing(containers).0;
    if containers.len() > 0 {
        let message = decimal(containers.len()) + " containers loaded ("@ + decimal(
            running_count(containers),
        ) + " running)"@;
        let listed = AppModel { containers, ..app }.with_status(message);
        reconciling_again_changes_nothing(listed);
        scrolling_again_changes_nothing(listed.reconciled().0);
        assert(next == listed.reconciled().0.list_in_view());
        assert(AppModel { containers, ..next }.with_status(message) == next);
    } else {
        let cleared = next.logs.cleared();
        assert(cleared == next.logs);
    }
}

/// When the engine lists the same containers twice, the second list changes nothing: nothing is
/// asked for, and the containers, the selection, what is known of it and the status stay.
pub proof fn the_same_list_changes_nothing(
    app: AppModel,
    event: DockerEvent,
    first: Seq<ContainerRecord>,
    second: Seq<ContainerRecord>,
)
    requires
        event matches DockerEvent::ContainersUpdated(containers) && stably_sorted(
            containers@,
            first,
        ) && stably_sorted(containers@, second),
    ensures
        app.after_event(event, first).0.after_event(event, second) == (
            app.after_event(event, first).0,
            Seq::<UiModel>::empty(),
        ),
{
    if let DockerEvent::ContainersUpdated(containers) = event {
        the_order_is_determined(containers@, first, second);
        listing_again_changes_nothing(app, first);
    }
}

/// Moving the selection in the list goes no further than its ends.
pub proof fn the_selection_stays_in_the_list(app: AppModel, delta: int)
    requires
        app.visible().len() > 0,
    ensures
        app.moved_in_list(delta).0.selected_row() is Some,
{
    let from = match app.selected_row() {
        Some(row) => row,
        None => 0,
    };
    let row = crate::logs::between(
        from + delta,
        crate::logs::last_index(app.visible().len()),
    );
    listed_container_exists(app, row);
    assert(app.moved_in_list(delta).0.visible() == app.visible());
}

// ---------------------------------------------------------------------------------------------
// Removal
// ---------------------------------------------------------------------------------------------

/// A command asks the engine to remove a container.
pub open spec fn asks_removal(command: UiModel) -> bool {
    match command {
        UiModel::Docker(RequestModel::Action { action, .. }) => action == ContainerAction::Remove,
        _ => false,
    }
}

/// No command asks the engine to remove a container.
pub open spec fn asks_no_removal(commands: Seq<UiModel>) -> bool {
    forall|i: int| 0 <= i < commands.len() ==> !asks_removal(#[trigger] commands[i])
}

/// Selecting a container removes none.
proof fn selecting_removes_nothing(app: AppModel, id: Seq<char>)
    ensures
        asks_no_removal(app.selecting(id).1),
{
}

/// Moving in the list removes no container.
proof fn moving_removes_nothing(app: AppModel, delta: int)
    ensures
        asks_no_removal(app.moved(delta).1),
        asks_no_removal(app.moved_in_list(delta).1),
{
    let from = match app.selected_row() {
        Some(row) => row,
        None => 0,
    };
    selecting_removes_nothing(
        app,
        app.visible()[crate::logs::between(
            from + delta,
            crate::logs::last_index(app.visible().len()),
        )]@.id,
    );
}

/// Going to an edge removes no container.
proof fn edges_remove_nothing(app: AppModel, end: bool)
    ensures
        asks_no_removal(app.at_edge(end).1),
{
    selecting_removes_nothing(app, app.visible().last()@.id);
    selecting_removes_nothing(app, app.visible()[0]@.id);
}

/// Bringing the selection in line removes no container.
proof fn reconciling_removes_nothing(app: AppModel)
    ensures
        asks_no_removal(app.reconciled().1),
{
}

/// A character that is bound to nothing removes no container.
proof fn characters_remove_nothing(app: AppModel, c: char)
    ensures
        asks_no_removal(app.character(c).1),
{
    moving_removes_nothing(app, -1);
    moving_removes_nothing(app, 1);
}

/// A key that is bound to nothing removes no container.
proof fn plain_keys_remove_nothing(app: AppModel, code: KeyCode)
    ensures
        asks_no_removal(app.plain_key(code).1),
{
    match code {
        KeyCode::Char(c) => characters_remove_nothing(app, c),
        KeyCode::Up => moving_removes_nothing(app, -1),
        KeyCode::Down => moving_removes_nothing(app, 1),
        KeyCode::PageUp => moving_removes_nothing(app, -10),
        KeyCode::PageDown => moving_removes_nothing(app, 10),
        KeyCode::Home => edges_remove_nothing(app, false),
        KeyCode::End => edges_remove_nothing(app, true),
        _ => {},
    }
}

/// A container is removed only where the removal was to be confirmed and Enter is pressed, and
/// then it is the selected one.
pub proof fn removal_is_confirmed(app: AppModel, key: KeyEvent)
    ensures
        !asks_no_removal(app.after_key(key).1) ==> {
            &&& app.confirm_remove
            &&& key.code == KeyCode::Enter
            &&& app.selected() is Some
            &&& app.after_key(key).1 == seq![
                UiModel::Docker(
                    RequestModel::Action {
                        id: app.selected()->0@.id,
                        action: ContainerAction::Remove,
                    },
                ),
            ]
        },
{
    plain_keys_remove_nothing(app, key.code);
    reconciling_removes_nothing(AppModel { show_stopped: !app.show_stopped, ..app });
}

/// The mouse removes no container.
pub proof fn the_mouse_removes_nothing(app: AppModel, mouse: MouseEvent)
    ensures
        asks_no_removal(app.after_mouse(mouse).1),
{
}

/// What the engine says removes no container.
pub proof fn the_engine_removes_nothing(
    app: AppModel,
    event: DockerEvent,
    ordered: Seq<ContainerRecord>,
)
    ensures
        asks_no_removal(app.after_event(event, ordered).1),
{
}

/// Esc cancels a removal: nothing is asked of the engine, and nothing is to be confirmed any
/// longer.
pub proof fn esc_cancels_a_removal(app: AppModel, key: KeyEvent)
    requires
        app.confirm_remove,
        key.code == KeyCode::Esc,
    ensures
        !app.after_key(key).0.confirm_remove,
        app.after_key(key).1.len() == 0,
{
}

// ---------------------------------------------------------------------------------------------
// Focus, tabs and typed texts
// ---------------------------------------------------------------------------------------------

/// Switching the focus twice leaves everything as it was.
pub proof fn switching_the_focus_twice_restores_it(app: AppModel)
    ensures
        app.focus_switched().focus_switched() == app,
{
}

/// The tab before the next one is the tab itself, and so is the one after the tab before.
pub proof fn tabs_go_round(app: AppModel, forward: bool)
    ensures
        app.with_next_tab(forward).with_next_tab(!forward).detail_tab == app.detail_tab,
{
    tabs_stand_at_their_index(app.detail_tab);
    tabs_stand_at_their_index(app.with_next_tab(forward).detail_tab);
}

/// The digits from one to six show the tabs in their order.
pub proof fn digits_show_the_tabs(app: AppModel)
    ensures
        app.character('1').0.detail_tab == all_tabs()[0],
        app.character('2').0.detail_tab == all_tabs()[1],
        app.character('3').0.detail_tab == all_tabs()[2],
        app.character('4').0.detail_tab == all_tabs()[3],
        app.character('5').0.detail_tab == all_tabs()[4],
        app.character('6').0.detail_tab == all_tabs()[5],
{
}

/// A character that is typed and taken back leaves the typed text as it was.
pub proof fn backspace_takes_a_character_back(
    app: AppModel,
    kind: InputKind,
    value: Seq<char>,
    c: char,
)
    ensures
        app.typing(kind, value, KeyCode::Char(c)).input == Some((kind, value.push(c))),
        app.typing(kind, value, KeyCode::Char(c)).typing(
            kind,
            value.push(c),
            KeyCode::Backspace,
        ).input == Some((kind, value)),
{
    assert(value.push(c).drop_last() =~= value);
}

/// While a text is typed or a removal is to be confirmed, the mouse changes nothing.
pub proof fn the_mouse_waits(app: AppModel, mouse: MouseEvent)
    requires
        app.confirm_remove || app.input is Some,
    ensures
        app.after_mouse(mouse) == (app, Seq::<UiModel>::empty()),
{
}

// ---------------------------------------------------------------------------------------------
// What always holds
// ---------------------------------------------------------------------------------------------

impl AppModel {
    /// The log holds no more lines than it may, and only lines of the selected container; the
    /// selected container is one of the containers; there are details only where a container is
    /// selected.
    pub open spec fn consistent(self) -> bool {
        &&& self.logs.entries.len() <= self.logs.max_entries
        &&& self.logs.container_id == self.selected_id
        &&& self.logs.entries.len() > 0 ==> self.selected_id is Some
        &&& self.selected_id is Some ==> self.selected() is Some
        &&& self.details is Some ==> self.selected_id is Some
    }
}

/// At the start the state is consistent.
pub proof fn the_start_is_consistent(
    runtime: RuntimeConfig,
    config_path: Option<Seq<char>>,
    sections: Sections,
)
    ensures
        started(runtime, config_path, sections).consistent(),
{
}

/// Another size of the screen keeps the state consistent.
pub proof fn resizing_keeps_consistency(app: AppModel, viewport: Rect, sections: Sections)
    requires
        app.consistent(),
    ensures
        app.resized(viewport, sections).consistent(),
{
}

/// Selecting an existing container keeps the state consistent.
proof fn selecting_keeps_consistency(app: AppModel, row: int)
    requires
        app.consistent(),
        0 <= row < app.visible().len(),
    ensures
        app.selecting(app.visible()[row]@.id).0.consistent(),
{
    listed_container_exists(app, row);
}

/// Moving in the list keeps the state consistent.
proof fn moving_keeps_consistency(app: AppModel, delta: int)
    requires
        app.consistent(),
    ensures
        app.moved_in_list(delta).0.consistent(),
{
    if app.visible().len() > 0 {
        let from = match app.selected_row() {
            Some(row) => row,
            None => 0,
        };
        selecting_keeps_consistency(
            app,
            crate::logs::between(from + delta, crate::logs::last_index(app.visible().len())),
        );
    }
}

/// Bringing the selection in line with the list makes the state consistent, whatever containers
/// there were before.
proof fn reconciling_makes_consistent(app: AppModel)
    requires
        app.logs.entries.len() <= app.logs.max_entries,
        app.logs.container_id == app.selected_id,
        app.logs.entries.len() > 0 ==> app.selected_id is Some,
        app.details is Some ==> app.selected_id is Some,
    ensures
        app.reconciled().0.consistent(),
{
    if app.visible().len() > 0 {
        let row = next_container_is_listed(app);
        listed_container_exists(app, row);
    }
}

/// The containers, the selected one, its details and its log lines are the same.
spec fn same_data(app: AppModel, other: AppModel) -> bool {
    &&& other.containers == app.containers
    &&& other.selected_id == app.selected_id
    &&& other.details == app.details
    &&& other.logs.entries == app.logs.entries
    &&& other.logs.max_entries == app.logs.max_entries
    &&& other.logs.container_id == app.logs.container_id
}

/// Where the data are the same, a consistent state stays consistent.
proof fn same_data_keep_consistency(app: AppModel, other: AppModel)
    requires
        app.consistent(),
        same_data(app, other),
    ensures
        other.consistent(),
{
}

/// Moving the selection keeps the state consistent.
proof fn moves_keep_consistency(app: AppModel, delta: int)
    requires
        app.consistent(),
    ensures
        app.moved(delta).0.consistent(),
{
    moving_keeps_consistency(app, delta);
    if app.focus == Focus::Detail {
        assert(same_data(app, app.moved(delta).0));
    }
}

/// Going to an edge keeps the state consistent.
proof fn edges_keep_consistency(app: AppModel, end: bool)
    requires
        app.consistent(),
    ensures
        app.at_edge(end).0.consistent(),
{
    if app.focus == Focus::Detail {
        assert(same_data(app, app.at_edge(end).0));
    } else if app.visible().len() > 0 {
        selecting_keeps_consistency(app, 0);
        selecting_keeps_consistency(app, app.visible().len() - 1);
    }
}

/// A character that is bound to nothing keeps the state consistent.
proof fn characters_keep_consistency(app: AppModel, c: char)
    requires
        app.consistent(),
    ensures
        app.character(c).0.consistent(),
{
    if c == 'k' {
        moves_keep_consistency(app, -1);
    } else if c == 'j' {
        moves_keep_consistency(app, 1);
    } else {
        assert(same_data(app, app.character(c).0));
    }
}

/// A key that is bound to nothing keeps the state consistent.
proof fn plain_keys_keep_consistency(app: AppModel, code: KeyCode)
    requires
        app.consistent(),
    ensures
        app.plain_key(code).0.consistent(),
{
    match code {
        KeyCode::Char(c) => characters_keep_consistency(app, c),
        KeyCode::Up => moves_keep_consistency(app, -1),
        KeyCode::Down => moves_keep_consistency(app, 1),
        KeyCode::PageUp => moves_keep_consistency(app, -10),
        KeyCode::PageDown => moves_keep_consistency(app, 10),
        KeyCode::Home => edges_keep_consistency(app, false),
        KeyCode::End => edges_keep_consistency(app, true),
        _ => {
            assert(same_data(app, app.plain_key(code).0));
        },
    }
}

/// A key keeps the state consistent.
pub proof fn keys_keep_consistency(app: AppModel, key: KeyEvent)
    requires
        app.consistent(),
    ensures
        app.after_key(key).0.consistent(),
{
    plain_keys_keep_consistency(app, key.code);
    reconciling_makes_consistent(AppModel { show_stopped: !app.show_stopped, ..app });
    same_data_keep_consistency(app, app.asking_to_remove());
    if app.confirm_remove {
        assert(same_data(app, app.confirming(key.code).0));
    } else if let Some((kind, value)) = app.input {
        assert(same_data(app, app.typing(kind, value, key.code)));
    }
}

/// Pressing the left button keeps the state consistent.
proof fn presses_keep_consistency(app: AppModel, x: u16, y: u16)
    requires
        app.consistent(),
        app.container_offset >= 0,
    ensures
        app.pressed(x, y).0.consistent(),
{
    let focused = AppModel { focus: Focus::Containers, ..app };
    assert(same_data(app, focused));
    let relative = crate::layout::floored_difference(y, app.layout().container_view.y);
    let index = app.container_offset + relative - 1;
    if relative > 0 && index < app.visible().len() {
        selecting_keeps_consistency(focused, index);
    }
    let other = AppModel { focus: Focus::Detail, ..app };
    let free = AppModel { scrollbar_drag: None, ..other };
    assert(same_data(app, other.title_clicked(x)));
    assert(same_data(app, free.line_clicked(y)));
    assert(same_data(app, free.item_clicked(y)));
}

/// Turning the wheel keeps the state consistent.
proof fn the_wheel_keeps_consistency(app: AppModel, delta: int, x: u16, y: u16)
    requires
        app.consistent(),
    ensures
        app.wheeled(delta, x, y).0.consistent(),
{
    let focused = AppModel { focus: Focus::Containers, ..app };
    assert(same_data(app, focused));
    moving_keeps_consistency(focused, delta);
    let other = AppModel { focus: Focus::Detail, ..app };
    assert(same_data(app, other.moved_in_tab(delta)));
    assert(same_data(app, other.with_logs(app.logs.moved_by(delta))));
}

/// The mouse keeps the state consistent.
pub proof fn the_mouse_keeps_consistency(app: AppModel, mouse: MouseEvent)
    requires
        app.consistent(),
        app.container_offset >= 0,
    ensures
        app.after_mouse(mouse).0.consistent(),
{
    presses_keep_consistency(app, mouse.column, mouse.row);
    the_wheel_keeps_consistency(app, -1, mouse.column, mouse.row);
    the_wheel_keeps_consistency(app, 1, mouse.column, mouse.row);
    assert(same_data(app, app.drawn(mouse.column, mouse.row).0));
}

/// Dragging a scrollbar keeps the state consistent.
pub proof fn scrollbars_keep_consistency(
    app: AppModel,
    target: ScrollbarTarget,
    y: u16,
    thumb_top: u16,
    thumb_length: u16,
    position: int,
)
    requires
        app.consistent(),
    ensures
        app.holding(target, y, thumb_top, thumb_length).consistent(),
        app.scrolled_to(target, position).consistent(),
{
}

/// What the engine says keeps the state consistent.
pub proof fn the_engine_keeps_consistency(
    app: AppModel,
    event: DockerEvent,
    ordered: Seq<ContainerRecord>,
)
    requires
        app.consistent(),
    ensures
        app.after_event(event, ordered).0.consistent(),
{
    match event {
        DockerEvent::ContainersUpdated(_) => {
            if ordered.len() > 0 {
                reconciling_makes_consistent(
                    AppModel { containers: ordered, ..app }.with_status(
                        app.listing(ordered).0.status,
                    ),
                );
                reconciling_ignores_the_status(
                    AppModel { containers: ordered, ..app },
                    app.listing(ordered).0.status,
                );
            }
        },
        DockerEvent::LogChunk { id, entries } => {
            newest_lines_are_kept(app.logs, entries@);
        },
        _ => {},
    }
}

/// What is said in the status line stays when the selection is brought in line.
proof fn reconciling_ignores_the_status(app: AppModel, status: Seq<char>)
    ensures
        app.with_status(status).reconciled().0.status == status,
{
}

/// What the engine says of a container that is not selected changes nothing.
pub proof fn other_containers_are_passed_over(
    app: AppModel,
    event: DockerEvent,
    ordered: Seq<ContainerRecord>,
)
    requires
        match event {
            DockerEvent::InspectLoaded { id, .. } => app.selected_id != Some(id@),
            DockerEvent::LogsReset { id } => app.selected_id != Some(id@),
            DockerEvent::LogsReady { id } => app.selected_id != Some(id@),
            DockerEvent::LogChunk { id, .. } => app.selected_id != Some(id@),
            _ => false,
        },
    ensures
        app.after_event(event, ordered) == (app, Seq::<UiModel>::empty()),
{
}

} // verus!
