//! The state of the program, and how keys, the mouse and the engine change it.

use crate::config::RuntimeConfig;
use crate::docker::{ContainerAction, DockerCommand, DockerEvent, RequestModel};
use crate::keys::{
    binding, holds_with, is_bound, KeyCode, KeyEvent, KeyModifiers, MouseButton, MouseEvent,
    MouseEventKind,
};
use crate::layout::{
    covers, floored_difference, grab_of, layout_of, tab_regions, window_for, AppLayout, Rect,
    ScrollMetrics, Sections,
};
use crate::logs::{between, last_index, lesser, LogModel, LogView};
use crate::model::{passing, tab_rows, ContainerDetails, ContainerRecord, DetailItem};
use crate::tab::{all_tabs, tab_index, DetailTab};
use crate::text::{decimal, lowered, occurs_at, text_of};
use vstd::prelude::*;

verus! {

/// The part of the screen that keys go to.
#[derive(Clone, Copy, Debug, PartialEq, Eq, Structural)]
pub enum Focus {
    Containers,
    Detail,
}

/// What a typed text is for.
#[derive(Clone, Copy, Debug, PartialEq, Eq, Structural)]
pub enum InputKind {
    LogFilter,
    LogSearch,
}

/// A text that is being typed.
#[derive(Clone, Debug)]
pub struct InputState {
    pub kind: InputKind,
    pub value: String,
}

/// What a scrollbar scrolls.
#[derive(Clone, Copy, Debug, PartialEq, Eq, Structural)]
pub enum ScrollbarTarget {
    Containers,
    Detail,
    Logs,
}

/// A scrollbar that the mouse drags, and where it holds the thumb.
#[derive(Clone, Copy, Debug, PartialEq, Eq, Structural)]
pub struct ScrollbarDrag {
    pub target: ScrollbarTarget,
    pub grab_offset: u16,
}

/// What is to be done outside the program's state.
#[derive(Clone, Debug)]
pub enum UiCommand {
    Quit,
    Copy(String),
    Docker(DockerCommand),
    SetStatus(String),
    /// The mouse takes hold of a scrollbar: where its thumb is has to be measured.
    GrabScrollbar { target: ScrollbarTarget, y: u16 },
    /// The mouse drags a thumb: the position that it stands for has to be measured.
    DragScrollbar { target: ScrollbarTarget, y: u16, grab_offset: u16 },
}

/// What a command says.
#[verifier::ext_equal]
pub enum UiModel {
    Quit,
    Copy(Seq<char>),
    Docker(RequestModel),
    SetStatus(Seq<char>),
    GrabScrollbar { target: ScrollbarTarget, y: u16 },
    DragScrollbar { target: ScrollbarTarget, y: u16, grab_offset: u16 },
}

impl View for UiCommand {
    type V = UiModel;

    open spec fn view(&self) -> UiModel {
        match *self {
            UiCommand::Quit => UiModel::Quit,
            UiCommand::Copy(text) => UiModel::Copy(text@),
            UiCommand::Docker(command) => UiModel::Docker(command@),
            UiCommand::SetStatus(message) => UiModel::SetStatus(message@),
            UiCommand::GrabScrollbar { target, y } => UiModel::GrabScrollbar { target, y },
            UiCommand::DragScrollbar { target, y, grab_offset } => UiModel::DragScrollbar {
                target,
                y,
                grab_offset,
            },
        }
    }
}

/// What some commands say.
pub open spec fn ui_models(commands: Seq<UiCommand>) -> Seq<UiModel> {
    commands.map_values(|command: UiCommand| command@)
}

/// The state of the program.
pub struct App {
    pub runtime: RuntimeConfig,
    pub containers: Vec<ContainerRecord>,
    pub selected_id: Option<String>,
    pub focus: Focus,
    pub detail_tab: DetailTab,
    pub show_stopped: bool,
    pub project_filter: Option<String>,
    pub input: Option<InputState>,
    pub confirm_remove: bool,
    pub status: String,
    pub last_error: Option<String>,
    pub details: Option<ContainerDetails>,
    pub logs: LogView,
    /// The selected row of each tab, in the order of the tabs.
    pub detail_cursor: [usize; 6],
    pub container_offset: usize,
    pub detail_offset: usize,
    pub viewport: Rect,
    /// The sections into which the viewport is split.
    pub sections: Sections,
    pub scrollbar_drag: Option<ScrollbarDrag>,
    pub startup_container_query: Option<String>,
}

/// What the state of the program says.
#[verifier::ext_equal]
pub struct AppModel {
    pub runtime: RuntimeConfig,
    pub containers: Seq<ContainerRecord>,
    pub selected_id: Option<Seq<char>>,
    pub focus: Focus,
    pub detail_tab: DetailTab,
    pub show_stopped: bool,
    pub project_filter: Option<Seq<char>>,
    pub input: Option<(InputKind, Seq<char>)>,
    pub confirm_remove: bool,
    pub status: Seq<char>,
    pub last_error: Option<Seq<char>>,
    pub details: Option<ContainerDetails>,
    pub logs: LogModel,
    pub detail_cursor: Seq<usize>,
    pub container_offset: int,
    pub detail_offset: int,
    pub viewport: Rect,
    pub sections: Sections,
    pub scrollbar_drag: Option<ScrollbarDrag>,
    pub startup_container_query: Option<Seq<char>>,
}

/// A text that is being typed.
pub open spec fn typed_text(input: Option<InputState>) -> Option<(InputKind, Seq<char>)> {
    match input {
        Some(state) => Some((state.kind, state.value@)),
        None => None,
    }
}

impl View for App {
    type V = AppModel;

    open spec fn view(&self) -> AppModel {
        AppModel {
            runtime: self.runtime,
            containers: self.containers@,
            selected_id: text_of(self.selected_id),
            focus: self.focus,
            detail_tab: self.detail_tab,
            show_stopped: self.show_stopped,
            project_filter: text_of(self.project_filter),
            input: typed_text(self.input),
            confirm_remove: self.confirm_remove,
            status: self.status@,
            last_error: text_of(self.last_error),
            details: self.details,
            logs: self.logs@,
            detail_cursor: self.detail_cursor@,
            container_offset: self.container_offset as int,
            detail_offset: self.detail_offset as int,
            viewport: self.viewport,
            sections: self.sections,
            scrollbar_drag: self.scrollbar_drag,
            startup_container_query: text_of(self.startup_container_query),
        }
    }
}

// ---------------------------------------------------------------------------------------------
// What the state shows
// ---------------------------------------------------------------------------------------------

/// A size, but no less than a limit.
pub open spec fn at_least(size: u16, limit: int) -> int {
    if size < limit {
        limit
    } else {
        size as int
    }
}

/// The position of the first container with an identifier, from one on.
pub open spec fn position(records: Seq<ContainerRecord>, id: Seq<char>, from: int) -> Option<int>
    decreases records.len() - from,
{
    if from >= records.len() {
        None
    } else if records[from]@.id == id {
        Some(from)
    } else {
        position(records, id, from + 1)
    }
}

/// The position of the first container that a condition holds of, from one on.
pub open spec fn first_such(
    records: Seq<ContainerRecord>,
    condition: spec_fn(ContainerRecord) -> bool,
    from: int,
) -> Option<int>
    decreases records.len() - from,
{
    if from >= records.len() {
        None
    } else if condition(records[from]) {
        Some(from)
    } else {
        first_such(records, condition, from + 1)
    }
}

/// A container is the one that is asked for by its full identifier or by how its name begins.
pub open spec fn is_named(record: ContainerRecord, query: Seq<char>) -> bool {
    record@.id == query || occurs_at(lowered(record@.name), lowered(query), 0)
}

/// The container that a query asks for: the first one whose identifier it is or whose name begins
/// with it, or else the first one that it matches at all.
pub open spec fn asked_for(records: Seq<ContainerRecord>, query: Seq<char>) -> Option<int> {
    match first_such(records, |record: ContainerRecord| is_named(record, query), 0) {
        Some(i) => Some(i),
        None => first_such(records, |record: ContainerRecord| record@.matches(query), 0),
    }
}

/// How many of the containers run.
pub open spec fn running_count(records: Seq<ContainerRecord>) -> nat
    decreases records.len(),
{
    if records.len() == 0 {
        0
    } else {
        running_count(records.drop_last()) + if records.last()@.running() {
            1nat
        } else {
            0nat
        }
    }
}

/// The tab whose title stands in a column, among the regions from one on.
pub open spec fn tab_at(regions: Seq<(DetailTab, int, int)>, x: int, from: int) -> Option<
    DetailTab,
>
    decreases regions.len() - from,
{
    if from >= regions.len() {
        None
    } else if regions[from].1 <= x < regions[from].2 {
        Some(regions[from].0)
    } else {
        tab_at(regions, x, from + 1)
    }
}

impl AppModel {
    /// The areas of the screen.
    pub open spec fn layout(self) -> AppLayout {
        layout_of(self.sections)
    }

    /// The rows of the log view.
    pub open spec fn log_rows(self) -> int {
        at_least(self.layout().logs_view.height, 1)
    }

    /// The columns of the log view.
    pub open spec fn log_columns(self) -> int {
        at_least(self.layout().logs_view.width, 3)
    }

    /// The rows of the container list.
    pub open spec fn list_rows(self) -> int {
        at_least(self.layout().container_scrollbar.height, 1)
    }

    /// The rows of the detail list.
    pub open spec fn detail_rows(self) -> int {
        at_least(self.layout().detail_view.height, 1)
    }

    /// The containers that are listed.
    pub open spec fn visible(self) -> Seq<ContainerRecord> {
        passing(self.containers, self.show_stopped, self.project_filter, None)
    }

    /// The position of the selected container in the list.
    pub open spec fn selected_row(self) -> Option<int> {
        match self.selected_id {
            Some(id) => position(self.visible(), id, 0),
            None => None,
        }
    }

    /// The selected container, listed or not.
    pub open spec fn selected(self) -> Option<ContainerRecord> {
        match self.selected_id {
            Some(id) => match position(self.containers, id, 0) {
                Some(i) => Some(self.containers[i]),
                None => None,
            },
            None => None,
        }
    }

    /// The rows of the shown tab.
    pub open spec fn items(self) -> Seq<DetailItem> {
        match self.details {
            Some(details) => tab_rows(details, self.detail_tab),
            None => Seq::empty(),
        }
    }

    /// The selected row of the shown tab.
    pub open spec fn cursor(self) -> int {
        self.detail_cursor[tab_index(self.detail_tab) as int] as int
    }

    /// What the scrollbars stand for.
    pub open spec fn metrics(self, target: ScrollbarTarget) -> ScrollMetrics {
        match target {
            ScrollbarTarget::Containers => ScrollMetrics {
                content_length: self.visible().len() as usize,
                viewport_length: self.list_rows() as usize,
                position: self.container_offset as usize,
                track: self.layout().container_scrollbar,
            },
            ScrollbarTarget::Detail => ScrollMetrics {
                content_length: self.items().len() as usize,
                viewport_length: self.detail_rows() as usize,
                position: self.detail_offset as usize,
                track: self.layout().detail_scrollbar,
            },
            ScrollbarTarget::Logs => ScrollMetrics {
                content_length: self.logs.filtered().len() as usize,
                viewport_length: self.log_rows() as usize,
                position: self.logs.scroll_top as usize,
                track: self.layout().logs_scrollbar,
            },
        }
    }

    /// What is copied: the selected lines of the log, the selected row of a tab, or the
    /// identifier of the selected container.
    pub open spec fn copied_value(self) -> Option<Seq<char>> {
        match self.focus {
            Focus::Detail => if self.detail_tab == DetailTab::Logs {
                self.logs.copied_text()
            } else if self.cursor() < self.items().len() {
                let item = self.items()[self.cursor()]@;
                Some(item.0 + ": "@ + item.1)
            } else {
                None
            },
            Focus::Containers => match self.selected() {
                Some(container) => Some(container@.id),
                None => None,
            },
        }
    }

    /// The keys and what they do.
    pub open spec fn help(self) -> Seq<char> {
        let keymap = self.runtime.keymap;
        let always = binding(text_of(keymap.quit), "q"@)
            + " quit | tab focus | arrows move | 1-6 tabs | "@ + binding(text_of(keymap.copy), "y"@)
            + " copy | "@ + binding(text_of(keymap.toggle_stopped), "a"@) + " toggle stopped | "@
            + binding(text_of(keymap.start_stop), "s"@) + " start/stop | "@ + binding(
            text_of(keymap.restart),
            "r"@,
        ) + " restart | "@ + binding(text_of(keymap.remove), "D"@) + " remove"@;
        if self.detail_tab == DetailTab::Logs {
            always
                + " | / search | f filter | m regex | space follow | w wrap | t timestamps | mouse drag select | drag scrollbar"@
        } else {
            always
        }
    }

    // -----------------------------------------------------------------------------------------
    // Changes
    // -----------------------------------------------------------------------------------------

    /// Something is said in the status line.
    pub open spec fn with_status(self, message: Seq<char>) -> AppModel {
        AppModel { status: message, last_error: None, ..self }
    }

    /// An error is said in the status line.
    pub open spec fn with_error(self, message: Seq<char>) -> AppModel {
        AppModel { status: message, last_error: Some(message), ..self }
    }

    /// The list is scrolled so that the selected container is visible.
    pub open spec fn list_in_view(self) -> AppModel {
        AppModel {
            container_offset: match self.selected_row() {
                Some(row) => window_for(self.container_offset, row, self.list_rows()),
                None => 0,
            },
            ..self
        }
    }

    /// The tab is scrolled so that its selected row is visible.
    pub open spec fn detail_in_view(self) -> AppModel {
        AppModel {
            detail_offset: window_for(self.detail_offset, self.cursor(), self.detail_rows()),
            ..self
        }
    }

    /// The log view, changed, is scrolled so that its selected line is visible.
    pub open spec fn with_logs(self, logs: LogModel) -> AppModel {
        AppModel { logs: logs.in_view(self.log_rows()), ..self }
    }

    /// The screen has another size, and other sections with it.
    pub open spec fn resized(self, viewport: Rect, sections: Sections) -> AppModel {
        let other = AppModel { viewport, sections, ..self }.list_in_view().detail_in_view();
        other.with_logs(other.logs)
    }

    /// The selected row of the shown tab is another one.
    pub open spec fn with_cursor(self, row: int) -> AppModel {
        AppModel {
            detail_cursor: self.detail_cursor.update(
                tab_index(self.detail_tab) as int,
                row as usize,
            ),
            ..self
        }.detail_in_view()
    }

    /// Another tab is shown.
    pub open spec fn with_tab(self, tab: DetailTab) -> AppModel {
        let other = AppModel { detail_tab: tab, ..self };
        if tab == DetailTab::Logs {
            other.with_logs(other.logs)
        } else {
            other.detail_in_view()
        }
    }

    /// The next tab is shown, or the one before; after the last one comes the first.
    pub open spec fn with_next_tab(self, forward: bool) -> AppModel {
        let index = tab_index(self.detail_tab) as int;
        let next = if forward {
            if index == 5 {
                0
            } else {
                index + 1
            }
        } else {
            if index == 0 {
                5
            } else {
                index - 1
            }
        };
        AppModel { detail_tab: all_tabs()[next], ..self }.detail_in_view()
    }

    /// The engine is asked for the details and the log of the selected container.
    pub open spec fn context(self) -> Seq<UiModel> {
        match self.selected() {
            Some(container) => seq![
                UiModel::Docker(RequestModel::LoadInspect { id: container@.id }),
                UiModel::Docker(RequestModel::WatchLogs { id: container@.id }),
            ],
            None => Seq::empty(),
        }
    }

    /// Another container is selected: what is known of the one before is forgotten.
    pub open spec fn selecting(self, id: Seq<char>) -> (AppModel, Seq<UiModel>) {
        if self.selected_id == Some(id) {
            (self, Seq::empty())
        } else {
            let next = AppModel {
                selected_id: Some(id),
                details: None,
                logs: self.logs.loading_for(Some(id)),
                ..self
            }.list_in_view();
            (next, next.context())
        }
    }

    /// The selection in the list moves by some rows.
    pub open spec fn moved_in_list(self, delta: int) -> (AppModel, Seq<UiModel>) {
        if self.visible().len() == 0 {
            (self, Seq::empty())
        } else {
            let from = match self.selected_row() {
                Some(row) => row,
                None => 0,
            };
            self.selecting(
                self.visible()[between(from + delta, last_index(self.visible().len()))]@.id,
            )
        }
    }

    /// The first or the last container of the list is selected.
    pub open spec fn at_list_edge(self, end: bool) -> (AppModel, Seq<UiModel>) {
        if self.visible().len() == 0 {
            (self, Seq::empty())
        } else if end {
            self.selecting(self.visible().last()@.id)
        } else {
            self.selecting(self.visible()[0]@.id)
        }
    }

    /// The selection in the tab moves by some rows.
    pub open spec fn moved_in_tab(self, delta: int) -> AppModel {
        if self.items().len() == 0 {
            self
        } else {
            self.with_cursor(between(self.cursor() + delta, last_index(self.items().len())))
        }
    }

    /// The selection moves by some rows, where the focus is.
    pub open spec fn moved(self, delta: int) -> (AppModel, Seq<UiModel>) {
        match self.focus {
            Focus::Containers => self.moved_in_list(delta),
            Focus::Detail => if self.detail_tab == DetailTab::Logs {
                (self.with_logs(self.logs.moved_by(delta)), Seq::empty())
            } else {
                (self.moved_in_tab(delta), Seq::empty())
            },
        }
    }

    /// The selection moves to the first or the last row, where the focus is.
    pub open spec fn at_edge(self, end: bool) -> (AppModel, Seq<UiModel>) {
        match self.focus {
            Focus::Containers => self.at_list_edge(end),
            Focus::Detail => if self.detail_tab == DetailTab::Logs {
                (self.with_logs(self.logs.at_edge(end)), Seq::empty())
            } else {
                (
                    self.with_cursor(
                        if end {
                            last_index(self.items().len())
                        } else {
                            0
                        },
                    ),
                    Seq::empty(),
                )
            },
        }
    }

    /// The container that stays or becomes selected when the list has changed: the selected one
    /// where it is listed, or else the one that was asked for at the start, or else the first.
    pub open spec fn next_id(self) -> Seq<char> {
        match self.selected_row() {
            Some(row) => self.visible()[row]@.id,
            None => match self.startup_container_query {
                Some(query) => match asked_for(self.visible(), query) {
                    Some(i) => self.visible()[i]@.id,
                    None => self.visible()[0]@.id,
                },
                None => self.visible()[0]@.id,
            },
        }
    }

    /// The selection is brought in line with the list.
    pub open spec fn reconciled(self) -> (AppModel, Seq<UiModel>) {
        if self.visible().len() == 0 {
            (
                AppModel { selected_id: None, details: None, logs: self.logs.cleared(), ..self },
                Seq::empty(),
            )
        } else {
            let id = self.next_id();
            let next = AppModel {
                selected_id: Some(id),
                startup_container_query: None,
                ..self
            }.list_in_view();
            if self.selected_id == Some(id) {
                (next, Seq::empty())
            } else {
                let fresh = AppModel {
                    details: None,
                    logs: self.logs.loading_for(Some(id)),
                    ..next
                };
                (fresh, fresh.context())
            }
        }
    }

    /// The engine is asked to do something with the selected container.
    pub open spec fn acting(self, action: ContainerAction) -> Seq<UiModel> {
        match self.selected() {
            Some(container) => seq![
                UiModel::Docker(RequestModel::Action { id: container@.id, action }),
            ],
            None => Seq::empty(),
        }
    }

    // -----------------------------------------------------------------------------------------
    // Keys
    // -----------------------------------------------------------------------------------------

    /// A key answers whether the selected container is to be removed.
    pub open spec fn confirming(self, code: KeyCode) -> (AppModel, Seq<UiModel>) {
        match code {
            KeyCode::Esc => (
                AppModel { confirm_remove: false, ..self }.with_status("Remove canceled"@),
                Seq::empty(),
            ),
            KeyCode::Enter => (
                AppModel { confirm_remove: false, ..self },
                self.acting(ContainerAction::Remove),
            ),
            _ => (self, Seq::empty()),
        }
    }

    /// A key goes to the text that is being typed.
    pub open spec fn typing(self, kind: InputKind, value: Seq<char>, code: KeyCode) -> AppModel {
        match code {
            KeyCode::Esc => AppModel { input: None, ..self },
            KeyCode::Enter => AppModel { input: None, ..self }.with_logs(
                match kind {
                    InputKind::LogFilter => self.logs.with_filter(value),
                    InputKind::LogSearch => self.logs.with_search(value),
                },
            ),
            KeyCode::Backspace => AppModel {
                input: Some(
                    (
                        kind,
                        if value.len() == 0 {
                            value
                        } else {
                            value.drop_last()
                        },
                    ),
                ),
                ..self
            },
            KeyCode::Char(c) => AppModel { input: Some((kind, value.push(c))), ..self },
            _ => self,
        }
    }

    /// A text begins to be typed.
    pub open spec fn asking(self, kind: InputKind, value: Seq<char>) -> AppModel {
        AppModel { input: Some((kind, value)), ..self }
    }

    /// A character that is bound to nothing is typed.
    pub open spec fn character(self, c: char) -> (AppModel, Seq<UiModel>) {
        let logs = self.detail_tab == DetailTab::Logs;
        if c == '1' {
            (self.with_tab(DetailTab::Logs), Seq::empty())
        } else if c == '2' {
            (self.with_tab(DetailTab::Overview), Seq::empty())
        } else if c == '3' {
            (self.with_tab(DetailTab::Env), Seq::empty())
        } else if c == '4' {
            (self.with_tab(DetailTab::Ports), Seq::empty())
        } else if c == '5' {
            (self.with_tab(DetailTab::Mounts), Seq::empty())
        } else if c == '6' {
            (self.with_tab(DetailTab::Health), Seq::empty())
        } else if c == 'k' {
            self.moved(-1)
        } else if c == 'j' {
            self.moved(1)
        } else if c == '/' && logs {
            (self.asking(InputKind::LogSearch, self.logs.search_query), Seq::empty())
        } else if c == 'f' && logs {
            (self.asking(InputKind::LogFilter, self.logs.filter_query), Seq::empty())
        } else if c == 'm' && logs {
            (AppModel { logs: self.logs.mode_toggled(), ..self }, Seq::empty())
        } else if c == 'n' && logs {
            (self.with_logs(self.logs.searched(false)), Seq::empty())
        } else if c == 'N' && logs {
            (self.with_logs(self.logs.searched(true)), Seq::empty())
        } else if c == ' ' && logs {
            (self.with_logs(self.logs.follow_toggled()), Seq::empty())
        } else if c == 'w' && logs {
            (self.with_logs(LogModel { wrap: !self.logs.wrap, ..self.logs }), Seq::empty())
        } else if c == 't' && logs {
            (
                self.with_logs(
                    LogModel { show_timestamps: !self.logs.show_timestamps, ..self.logs },
                ),
                Seq::empty(),
            )
        } else if c == '?' || c == 'h' {
            (self, seq![UiModel::SetStatus(self.help())])
        } else {
            (self, Seq::empty())
        }
    }

    /// A key that is bound to nothing is pressed.
    pub open spec fn plain_key(self, code: KeyCode) -> (AppModel, Seq<UiModel>) {
        match code {
            KeyCode::Tab | KeyCode::BackTab => (self.focus_switched(), Seq::empty()),
            KeyCode::Left if self.focus == Focus::Detail => (
                self.with_next_tab(false),
                Seq::empty(),
            ),
            KeyCode::Right if self.focus == Focus::Detail => (
                self.with_next_tab(true),
                Seq::empty(),
            ),
            KeyCode::Up => self.moved(-1),
            KeyCode::Down => self.moved(1),
            KeyCode::PageUp => self.moved(-10),
            KeyCode::PageDown => self.moved(10),
            KeyCode::Home => self.at_edge(false),
            KeyCode::End => self.at_edge(true),
            KeyCode::Char(c) => self.character(c),
            _ => (self, Seq::empty()),
        }
    }

    /// The focus goes to the other part of the screen.
    pub open spec fn focus_switched(self) -> AppModel {
        AppModel {
            focus: match self.focus {
                Focus::Containers => Focus::Detail,
                Focus::Detail => Focus::Containers,
            },
            ..self
        }
    }

    /// Whether the selected container is to be removed has to be confirmed.
    pub open spec fn asking_to_remove(self) -> AppModel {
        if self.selected() is Some {
            AppModel {
                confirm_remove: true,
                status: "Press Enter to remove the selected container, or Esc to cancel"@,
                ..self
            }
        } else {
            self
        }
    }

    /// A key is pressed.
    pub open spec fn after_key(self, key: KeyEvent) -> (AppModel, Seq<UiModel>) {
        let keymap = self.runtime.keymap;
        let control = KeyModifiers { control: true, alt: false, shift: false };
        if self.confirm_remove {
            self.confirming(key.code)
        } else if let Some((kind, value)) = self.input {
            (self.typing(kind, value, key.code), Seq::empty())
        } else if is_bound(key, binding(text_of(keymap.quit), "q"@)) || holds_with(
            key,
            Some(('c', control)),
        ) {
            (self, seq![UiModel::Quit])
        } else if is_bound(key, binding(text_of(keymap.toggle_stopped), "a"@)) {
            AppModel { show_stopped: !self.show_stopped, ..self }.reconciled()
        } else if is_bound(key, binding(text_of(keymap.copy), "y"@)) {
            (
                self,
                match self.copied_value() {
                    Some(text) => seq![UiModel::Copy(text)],
                    None => Seq::empty(),
                },
            )
        } else if is_bound(key, binding(text_of(keymap.start_stop), "s"@)) {
            (self, self.acting(ContainerAction::StartStop))
        } else if is_bound(key, binding(text_of(keymap.restart), "r"@)) {
            (self, self.acting(ContainerAction::Restart))
        } else if is_bound(key, binding(text_of(keymap.remove), "D"@)) {
            (self.asking_to_remove(), Seq::empty())
        } else {
            self.plain_key(key.code)
        }
    }

    // -----------------------------------------------------------------------------------------
    // The mouse
    // -----------------------------------------------------------------------------------------

    /// The scrollbar at a point of the screen.
    pub open spec fn scrollbar_at(self, x: u16, y: u16) -> Option<ScrollbarTarget> {
        let logs = self.detail_tab == DetailTab::Logs;
        if covers(self.layout().container_scrollbar, x, y) {
            Some(ScrollbarTarget::Containers)
        } else if logs && covers(self.layout().logs_scrollbar, x, y) {
            Some(ScrollbarTarget::Logs)
        } else if !logs && covers(self.layout().detail_scrollbar, x, y) {
            Some(ScrollbarTarget::Detail)
        } else {
            None
        }
    }

    /// The container in a row of the screen is selected.
    pub open spec fn row_clicked(self, y: u16) -> (AppModel, Seq<UiModel>) {
        let relative = floored_difference(y, self.layout().container_view.y);
        let index = self.container_offset + relative - 1;
        if relative == 0 || index >= self.visible().len() {
            (self, Seq::empty())
        } else {
            self.selecting(self.visible()[index]@.id)
        }
    }

    /// The tab whose title stands in a column of the screen is shown.
    pub open spec fn title_clicked(self, x: u16) -> AppModel {
        match tab_at(tab_regions(self.layout().detail_tabs_inner), x as int, 0) {
            Some(tab) => self.with_tab(tab),
            None => self,
        }
    }

    /// A range of log lines begins at a row of the screen.
    pub open spec fn line_clicked(self, y: u16) -> AppModel {
        let relative = floored_difference(y, self.layout().logs_view.y) as int;
        let rows = self.logs.visible(self.log_rows(), self.log_columns());
        if relative < self.log_rows() && relative < rows.len() {
            AppModel {
                logs: self.logs.range_started(rows[relative].0, self.log_rows()),
                ..self
            }
        } else {
            self
        }
    }

    /// The range of log lines is drawn on to a row of the screen.
    pub open spec fn line_drawn(self, y: u16) -> AppModel {
        let relative = lesser(
            floored_difference(y, self.layout().logs_view.y) as int,
            self.log_rows() - 1,
        );
        let rows = self.logs.visible(self.log_rows(), self.log_columns());
        if relative < rows.len() {
            AppModel {
                logs: self.logs.range_extended(rows[relative].0, self.log_rows()),
                ..self
            }
        } else {
            self
        }
    }

    /// The row of a tab in a row of the screen is selected.
    pub open spec fn item_clicked(self, y: u16) -> AppModel {
        let relative = floored_difference(y, self.layout().detail_view.y) as int;
        if self.items().len() == 0 {
            self
        } else {
            self.with_cursor(lesser(self.detail_offset + relative, last_index(self.items().len())))
        }
    }

    /// The left button is pressed.
    pub open spec fn pressed(self, x: u16, y: u16) -> (AppModel, Seq<UiModel>) {
        let layout = self.layout();
        let logs = self.detail_tab == DetailTab::Logs;
        if self.scrollbar_at(x, y) is Some {
            let target = self.scrollbar_at(x, y)->0;
            (
                AppModel {
                    logs: self.logs.drag_finished(),
                    focus: match target {
                        ScrollbarTarget::Containers => Focus::Containers,
                        ScrollbarTarget::Detail | ScrollbarTarget::Logs => Focus::Detail,
                    },
                    ..self
                },
                seq![UiModel::GrabScrollbar { target, y }],
            )
        } else if covers(layout.container_view, x, y) {
            AppModel { focus: Focus::Containers, ..self }.row_clicked(y)
        } else if covers(layout.detail_tabs_inner, x, y) {
            (AppModel { focus: Focus::Detail, ..self }.title_clicked(x), Seq::empty())
        } else if logs && covers(layout.logs_view, x, y) {
            (
                AppModel { focus: Focus::Detail, scrollbar_drag: None, ..self }.line_clicked(y),
                Seq::empty(),
            )
        } else if !logs && covers(layout.detail_view, x, y) {
            (
                AppModel { focus: Focus::Detail, scrollbar_drag: None, ..self }.item_clicked(y),
                Seq::empty(),
            )
        } else {
            (self, Seq::empty())
        }
    }

    /// The mouse is moved with the left button held.
    pub open spec fn drawn(self, x: u16, y: u16) -> (AppModel, Seq<UiModel>) {
        if self.scrollbar_drag is Some {
            let drag = self.scrollbar_drag->0;
            (
                self,
                seq![
                    UiModel::DragScrollbar {
                        target: drag.target,
                        y,
                        grab_offset: drag.grab_offset,
                    },
                ],
            )
        } else if self.detail_tab == DetailTab::Logs && self.logs.drag_active && covers(
            self.layout().logs_view,
            x,
            y,
        ) {
            (self.line_drawn(y), Seq::empty())
        } else {
            (self, Seq::empty())
        }
    }

    /// The wheel is turned: the selection under the mouse moves.
    pub open spec fn wheeled(self, delta: int, x: u16, y: u16) -> (AppModel, Seq<UiModel>) {
        let layout = self.layout();
        if self.detail_tab == DetailTab::Logs && covers(layout.logs_outer, x, y) {
            (
                AppModel { focus: Focus::Detail, ..self }.with_logs(self.logs.moved_by(delta)),
                Seq::empty(),
            )
        } else if covers(layout.container_outer, x, y) {
            AppModel { focus: Focus::Containers, ..self }.moved_in_list(delta)
        } else if covers(layout.detail_outer, x, y) {
            (AppModel { focus: Focus::Detail, ..self }.moved_in_tab(delta), Seq::empty())
        } else {
            (self, Seq::empty())
        }
    }

    /// The mouse does something. While a text is typed or a removal is to be confirmed, nothing
    /// comes of it.
    pub open spec fn after_mouse(self, mouse: MouseEvent) -> (AppModel, Seq<UiModel>) {
        let x = mouse.column;
        let y = mouse.row;
        if self.confirm_remove || self.input is Some {
            (self, Seq::empty())
        } else {
            match mouse.kind {
                MouseEventKind::Down(MouseButton::Left) => self.pressed(x, y),
                MouseEventKind::Drag(MouseButton::Left) => self.drawn(x, y),
                MouseEventKind::Up(MouseButton::Left) => (
                    AppModel {
                        logs: self.logs.drag_finished(),
                        scrollbar_drag: None,
                        ..self
                    },
                    Seq::empty(),
                ),
                MouseEventKind::ScrollUp => self.wheeled(-1, x, y),
                MouseEventKind::ScrollDown => self.wheeled(1, x, y),
                _ => (self, Seq::empty()),
            }
        }
    }

    /// The mouse has taken hold of a thumb.
    pub open spec fn holding(
        self,
        target: ScrollbarTarget,
        y: u16,
        thumb_top: u16,
        thumb_length: u16,
    ) -> AppModel {
        AppModel {
            scrollbar_drag: Some(
                ScrollbarDrag { target, grab_offset: grab_of(thumb_top, thumb_length, y) },
            ),
            ..self
        }
    }

    /// What a scrollbar scrolls is scrolled to a position, as far as it goes.
    pub open spec fn scrolled_to(self, target: ScrollbarTarget, position: int) -> AppModel {
        match target {
            ScrollbarTarget::Containers => AppModel {
                container_offset: lesser(
                    position,
                    between(self.visible().len() - self.list_rows(), self.visible().len() as int),
                ),
                ..self
            },
            ScrollbarTarget::Detail => AppModel {
                detail_offset: lesser(
                    position,
                    between(self.items().len() - self.detail_rows(), self.items().len() as int),
                ),
                ..self
            },
            ScrollbarTarget::Logs => AppModel {
                logs: self.logs.scrolled_to(position, self.log_rows()),
                ..self
            },
        }
    }

    // -----------------------------------------------------------------------------------------
    // The engine
    // -----------------------------------------------------------------------------------------

    /// The containers are listed anew, in their order.
    pub open spec fn listing(self, containers: Seq<ContainerRecord>) -> (AppModel, Seq<UiModel>) {
        let listed = AppModel { containers, ..self };
        if containers.len() == 0 {
            (
                AppModel {
                    selected_id: None,
                    details: None,
                    logs: self.logs.cleared(),
                    ..listed
                }.with_status("No containers found"@),
                Seq::empty(),
            )
        } else {
            let (next, commands) = listed.with_status(
                decimal(containers.len()) + " containers loaded ("@ + decimal(
                    running_count(containers),
                ) + " running)"@,
            ).reconciled();
            (next.list_in_view(), commands)
        }
    }

    /// The engine says something. A list of containers comes with the order that it is brought
    /// into; what concerns another container than the selected one is passed over.
    pub open spec fn after_event(
        self,
        event: DockerEvent,
        ordered: Seq<ContainerRecord>,
    ) -> (AppModel, Seq<UiModel>) {
        match event {
            DockerEvent::Connected(message) => (self.with_status(message@), Seq::empty()),
            DockerEvent::ContainersUpdated(_) => self.listing(ordered),
            DockerEvent::InspectLoaded { id, details } => if self.selected_id == Some(id@) {
                (AppModel { details: Some(details), ..self }, Seq::empty())
            } else {
                (self, Seq::empty())
            },
            DockerEvent::LogsReset { id } => if self.selected_id == Some(id@) {
                (AppModel { logs: self.logs.loading_for(Some(id@)), ..self }, Seq::empty())
            } else {
                (self, Seq::empty())
            },
            DockerEvent::LogsReady { id } => if self.selected_id == Some(id@) {
                (AppModel { logs: self.logs.loaded(), ..self }, Seq::empty())
            } else {
                (self, Seq::empty())
            },
            DockerEvent::LogChunk { id, entries } => if self.selected_id == Some(id@) {
                (self.with_logs(self.logs.appended(entries@).loaded()), Seq::empty())
            } else {
                (self, Seq::empty())
            },
            DockerEvent::OperationSucceeded(message) => (
                self.with_status(message@),
                seq![UiModel::Docker(RequestModel::RefreshContainers)] + match self.selected() {
                    Some(container) => seq![
                        UiModel::Docker(RequestModel::LoadInspect { id: container@.id }),
                    ],
                    None => Seq::empty(),
                },
            ),
            DockerEvent::OperationFailed(message) => (self.with_error(message@), Seq::empty()),
        }
    }
}

} // verus!
