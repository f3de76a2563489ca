//! The program's reactions to keys, the mouse and the engine.

use crate::config::RuntimeConfig;
use crate::docker::{ContainerAction, DockerCommand, DockerEvent, RequestModel};
use crate::keys::{
    display_binding, matches_binding, KeyCode, KeyEvent, KeyModifiers, MouseButton, MouseEvent,
    MouseEventKind,
};
use crate::layout::{
    contains, detail_tab_regions, fills_screen, grab_of, grab_offset, position_of, region_of,
    scroll_offset_for_selection, split_screen, tab_regions, AppLayout, Rect, ScrollMetrics,
    Sections,
};
use crate::logs::{
    last_of, lesser, number_of, row_models, shifted, LogModel, LogView, VisibleLogRow,
};
use crate::model::{
    apply_container_filters, sort_containers, stably_sorted, ContainerRecord, DetailItem,
    LogEntry, LogFilterMode,
};
use crate::state::{
    asked_for, first_such, is_named, position, running_count, tab_at, ui_models, App, AppModel,
    Focus, InputKind, InputState, ScrollbarDrag, ScrollbarTarget, UiCommand, UiModel,
};
use crate::tab::DetailTab;
use crate::text::{
    concat, copied, copied_option, decimal_usize, is_text, same_text, starts_ignoring_case,
    text_of, without_last,
};
use vstd::prelude::*;
use vstd::string::StringExecFns;

verus! {

/// No commands.
fn no_commands() -> (commands: Vec<UiCommand>)
    ensures
        ui_models(commands@) == Seq::<UiModel>::empty(),
{
    let commands: Vec<UiCommand> = Vec::new();
    proof {
        assert(ui_models(commands@) =~= Seq::<UiModel>::empty());
    }
    commands
}

/// One command.
fn only(command: UiCommand) -> (commands: Vec<UiCommand>)
    ensures
        ui_models(commands@) == seq![command@],
{
    let commands = vec![command];
    proof {
        assert(ui_models(commands@) =~= seq![command@]);
    }
    commands
}

/// The position of the first of some containers with an identifier.
fn find_container(records: &Vec<ContainerRecord>, id: &str) -> (found: Option<usize>)
    ensures
        number_of(found) == position(records@, id@, 0),
        found matches Some(i) ==> i < records@.len(),
{
    let mut i: usize = 0;
    while i < records.len()
        invariant
            i <= records@.len(),
            position(records@, id@, 0) == position(records@, id@, i as int),
        decreases records@.len() - i,
    {
        if same_text(records[i].id.as_str(), id) {
            return Some(i);
        }
        i += 1;
    }
    None
}

/// The position of the first of some listed containers with an identifier.
fn find_listed(records: &Vec<&ContainerRecord>, id: &str) -> (found: Option<usize>)
    ensures
        number_of(found) == position(records@.unref(), id@, 0),
        found matches Some(i) ==> i < records@.len(),
{
    let mut i: usize = 0;
    while i < records.len()
        invariant
            i <= records@.len(),
            position(records@.unref(), id@, 0) == position(records@.unref(), id@, i as int),
        decreases records@.len() - i,
    {
        proof {
            assert(records@.unref()[i as int] == *records@[i as int]);
        }
        if same_text(records[i].id.as_str(), id) {
            return Some(i);
        }
        i += 1;
    }
    None
}

/// The position of the listed container that a query asks for.
fn find_asked_for(records: &Vec<&ContainerRecord>, query: &str) -> (found: Option<usize>)
    ensures
        number_of(found) == asked_for(records@.unref(), query@),
        found matches Some(i) ==> i < records@.len(),
{
    let ghost all = records@.unref();
    let ghost named = |record: ContainerRecord| is_named(record, query@);
    let ghost matched = |record: ContainerRecord| record@.matches(query@);
    let mut i: usize = 0;
    while i < records.len()
        invariant
            i <= records@.len(),
            all == records@.unref(),
            named == (|record: ContainerRecord| is_named(record, query@)),
            first_such(all, named, 0) == first_such(all, named, i as int),
        decreases records@.len() - i,
    {
        proof {
            assert(all[i as int] == *records@[i as int]);
        }
        if same_text(records[i].id.as_str(), query) || starts_ignoring_case(
            records[i].name.as_str(),
            query,
        ) {
            return Some(i);
        }
        i += 1;
    }
    let mut i: usize = 0;
    while i < records.len()
        invariant
            i <= records@.len(),
            all == records@.unref(),
            named == (|record: ContainerRecord| is_named(record, query@)),
            matched == (|record: ContainerRecord| record@.matches(query@)),
            first_such(all, named, 0) is None,
            first_such(all, matched, 0) == first_such(all, matched, i as int),
        decreases records@.len() - i,
    {
        proof {
            assert(all[i as int] == *records@[i as int]);
        }
        if records[i].matches_query(query) {
            return Some(i);
        }
        i += 1;
    }
    None
}

/// How many of the containers run.
fn count_running(records: &Vec<ContainerRecord>) -> (count: usize)
    ensures
        count == running_count(records@),
{
    let mut count: usize = 0;
    let mut i: usize = 0;
    let total: usize = records.len();
    while i < total
        invariant
            i <= total == records@.len(),
            count <= i,
            count == running_count(records@.take(i as int)),
        decreases total - i,
    {
        proof {
            assert(records@.take(i + 1).drop_last() =~= records@.take(i as int));
            assert(records@.take(i + 1).last() == records@[i as int]);
        }
        if records[i].is_running() {
            count += 1;
        }
        i += 1;
    }
    proof {
        assert(records@.take(i as int) =~= records@);
    }
    count
}

/// The state at the start.
pub open spec fn started(
    runtime: RuntimeConfig,
    config_path: Option<Seq<char>>,
    sections: Sections,
) -> AppModel {
    AppModel {
        runtime,
        containers: Seq::empty(),
        selected_id: None,
        focus: Focus::Containers,
        detail_tab: DetailTab::Logs,
        show_stopped: runtime.show_stopped_by_default,
        project_filter: text_of(runtime.project_filter),
        input: None,
        confirm_remove: false,
        status: match config_path {
            Some(path) => "Config: "@ + path,
            None => "Config: defaults"@,
        },
        last_error: None,
        details: None,
        logs: LogModel {
            container_id: None,
            entries: Seq::empty(),
            loading: false,
            filter_query: Seq::empty(),
            search_query: Seq::empty(),
            filter_mode: LogFilterMode::Substring,
            follow: true,
            wrap: false,
            show_timestamps: runtime.show_timestamps,
            selected: 0,
            max_entries: lesser(runtime.log_backlog_lines * 20, usize::MAX as int),
            scroll_top: 0,
            selection_anchor: None,
            selection_end: None,
            drag_active: false,
        },
        detail_cursor: seq![0usize, 0, 0, 0, 0, 0],
        container_offset: 0,
        detail_offset: 0,
        viewport: Rect { x: 0, y: 0, width: 0, height: 0 },
        sections,
        scrollbar_drag: None,
        startup_container_query: text_of(runtime.startup_container_query),
    }
}

impl App {
    /// The state at the start, on a screen without any area.
    pub fn new(runtime: RuntimeConfig, config_path: Option<String>) -> (app: Self)
        ensures
            app@ == started(runtime, text_of(config_path), app@.sections),
            fills_screen(app@.sections, app@.viewport),
    {
        let sections = split_screen(Rect { x: 0, y: 0, width: 0, height: 0 });
        App::with_sections(runtime, config_path, sections)
    }

    /// The state at the start, given the sections of the screen.
    pub fn with_sections(
        runtime: RuntimeConfig,
        config_path: Option<String>,
        sections: Sections,
    ) -> (app: Self)
        ensures
            app@ == started(runtime, text_of(config_path), sections),
    {
        let lines: usize = runtime.log_backlog_lines;
        let max_entries: usize = if lines <= usize::MAX / 20 { lines * 20 } else { usize::MAX };
        let status = match &config_path {
            Some(path) => concat("Config: ", path.as_str()),
            None => copied("Config: defaults"),
        };
        let project_filter = copied_option(&runtime.project_filter);
        let startup_container_query = copied_option(&runtime.startup_container_query);
        let app = App {
            containers: Vec::new(),
            selected_id: None,
            focus: Focus::Containers,
            detail_tab: DetailTab::Logs,
            show_stopped: runtime.show_stopped_by_default,
            project_filter,
            input: None,
            confirm_remove: false,
            status,
            last_error: None,
            details: None,
            logs: LogView::new(runtime.show_timestamps, max_entries),
            detail_cursor: [0, 0, 0, 0, 0, 0],
            container_offset: 0,
            detail_offset: 0,
            viewport: Rect { x: 0, y: 0, width: 0, height: 0 },
            sections,
            scrollbar_drag: None,
            startup_container_query,
            runtime,
        };
        proof {
            assert(app.detail_cursor@ =~= seq![0usize, 0, 0, 0, 0, 0]);
        }
        app
    }

    /// What is to be done at the start: nothing.
    pub fn bootstrap_commands(&self) -> (commands: Vec<UiCommand>)
        ensures
            ui_models(commands@) == Seq::<UiModel>::empty(),
    {
        no_commands()
    }

    /// Says something in the status line.
    pub fn set_status(&mut self, message: String)
        ensures
            final(self)@ == old(self)@.with_status(message@),
    {
        self.status = message;
        self.last_error = None;
    }

    /// Says an error in the status line.
    pub fn set_error(&mut self, message: String)
        ensures
            final(self)@ == old(self)@.with_error(message@),
    {
        self.status = copied(message.as_str());
        self.last_error = Some(message);
    }

    /// The areas of the screen.
    pub fn layout(&self) -> (layout: AppLayout)
        ensures
            layout == self@.layout(),
    {
        AppLayout::new(self.sections)
    }

    fn log_rows_height(&self) -> (rows: usize)
        ensures
            rows == self@.log_rows(),
            1 <= rows <= 65535,
    {
        let height: u16 = self.layout().logs_view.height;
        if height < 1 {
            1
        } else {
            height as usize
        }
    }

    fn log_content_width(&self) -> (columns: usize)
        ensures
            columns == self@.log_columns(),
    {
        let width: u16 = self.layout().logs_view.width;
        if width < 3 {
            3
        } else {
            width as usize
        }
    }

    fn container_rows_height(&self) -> (rows: usize)
        ensures
            rows == self@.list_rows(),
    {
        let height: u16 = self.layout().container_scrollbar.height;
        if height < 1 {
            1
        } else {
            height as usize
        }
    }

    fn detail_rows_height(&self) -> (rows: usize)
        ensures
            rows == self@.detail_rows(),
    {
        let height: u16 = self.layout().detail_view.height;
        if height < 1 {
            1
        } else {
            height as usize
        }
    }

    /// The containers that are listed.
    pub fn filtered_containers(&self) -> (containers: Vec<&ContainerRecord>)
        ensures
            containers@.unref() == self@.visible(),
            containers@.len() == self@.visible().len(),
    {
        let project = match &self.project_filter {
            Some(project) => Some(project.as_str()),
            None => None,
        };
        apply_container_filters(self.containers.as_slice(), self.show_stopped, project, None)
    }

    /// The position of the selected container in the list.
    pub fn selected_visible_index(&self) -> (index: Option<usize>)
        ensures
            number_of(index) == self@.selected_row(),
            index matches Some(i) ==> i < self@.visible().len(),
    {
        match &self.selected_id {
            Some(id) => find_listed(&self.filtered_containers(), id.as_str()),
            None => None,
        }
    }

    /// The selected container, listed or not.
    pub fn selected_container(&self) -> (container: Option<&ContainerRecord>)
        ensures
            match container {
                Some(container) => self@.selected() == Some(*container),
                None => self@.selected() is None,
            },
    {
        match &self.selected_id {
            Some(id) => match find_container(&self.containers, id.as_str()) {
                Some(i) => Some(&self.containers[i]),
                None => None,
            },
            None => None,
        }
    }

    /// The rows of the shown tab.
    pub fn selected_detail_items(&self) -> (items: &[DetailItem])
        ensures
            items@ == self@.items(),
    {
        match &self.details {
            Some(details) => details.items_for_tab(self.detail_tab),
            None => &[],
        }
    }

    /// The selected row of the shown tab.
    pub fn selected_detail_index(&self) -> (index: usize)
        ensures
            index == self@.cursor(),
    {
        self.detail_cursor[self.detail_tab.index()]
    }

    /// The visible rows of the log view.
    pub fn visible_log_rows(&self) -> (rows: Vec<VisibleLogRow>)
        ensures
            row_models(rows@) == self@.logs.visible(self@.log_rows(), self@.log_columns()),
    {
        self.logs.visible_rows(self.log_rows_height(), self.log_content_width())
    }

    fn ensure_container_visible(&mut self)
        ensures
            final(self)@ == old(self)@.list_in_view(),
    {
        self.container_offset = match self.selected_visible_index() {
            Some(selected) => scroll_offset_for_selection(
                self.container_offset,
                selected,
                self.container_rows_height(),
            ),
            None => 0,
        };
    }

    fn ensure_detail_visible(&mut self)
        ensures
            final(self)@ == old(self)@.detail_in_view(),
    {
        self.detail_offset = scroll_offset_for_selection(
            self.detail_offset,
            self.selected_detail_index(),
            self.detail_rows_height(),
        );
    }

    fn ensure_log_visible(&mut self)
        ensures
            final(self)@ == old(self)@.with_logs(old(self)@.logs),
    {
        let rows: usize = self.log_rows_height();
        self.logs.ensure_visible(rows);
    }

    /// Takes note of the size of the screen. A size that has not changed changes nothing.
    pub fn set_viewport(&mut self, viewport: Rect)
        ensures
            viewport == old(self)@.viewport ==> final(self)@ == old(self)@,
            viewport != old(self)@.viewport ==> final(self)@ == old(self)@.resized(
                viewport,
                final(self)@.sections,
            ) && fills_screen(final(self)@.sections, viewport),
    {
        if self.viewport != viewport {
            self.set_sections(viewport, split_screen(viewport));
        }
    }

    /// Takes note of another size of the screen, given the sections that it is split into.
    pub fn set_sections(&mut self, viewport: Rect, sections: Sections)
        ensures
            final(self)@ == old(self)@.resized(viewport, sections),
    {
        self.viewport = viewport;
        self.sections = sections;
        self.ensure_container_visible();
        self.ensure_detail_visible();
        self.ensure_log_visible();
    }

    // -----------------------------------------------------------------------------------------
    // The selection
    // -----------------------------------------------------------------------------------------

    fn selected_context_commands(&self) -> (commands: Vec<UiCommand>)
        ensures
            ui_models(commands@) == self@.context(),
    {
        match self.selected_container() {
            Some(container) => {
                let commands = vec![
                    UiCommand::Docker(
                        DockerCommand::LoadInspect { id: copied(container.id.as_str()) },
                    ),
                    UiCommand::Docker(
                        DockerCommand::WatchLogs { id: copied(container.id.as_str()) },
                    ),
                ];
                proof {
                    assert(ui_models(commands@) =~= self@.context());
                }
                commands
            },
            None => no_commands(),
        }
    }

    fn action_commands(&self, action: ContainerAction) -> (commands: Vec<UiCommand>)
        ensures
            ui_models(commands@) == self@.acting(action),
    {
        match self.selected_container() {
            Some(container) => only(
                UiCommand::Docker(
                    DockerCommand::Action { id: copied(container.id.as_str()), action },
                ),
            ),
            None => no_commands(),
        }
    }

    fn select_container(&mut self, id: String) -> (commands: Vec<UiCommand>)
        ensures
            (final(self)@, ui_models(commands@)) == old(self)@.selecting(id@),
    {
        if is_text(&self.selected_id, id.as_str()) {
            return no_commands();
        }
        self.logs.begin_loading(Some(copied(id.as_str())));
        self.selected_id = Some(id);
        self.details = None;
        self.ensure_container_visible();
        self.selected_context_commands()
    }

    fn move_container_selection(&mut self, delta: isize) -> (commands: Vec<UiCommand>)
        ensures
            (final(self)@, ui_models(commands@)) == old(self)@.moved_in_list(delta as int),
    {
        let next_id = {
            let visible = self.filtered_containers();
            if visible.len() == 0 {
                return no_commands();
            }
            let selected: usize = match self.selected_visible_index() {
                Some(index) => index,
                None => 0,
            };
            let next: usize = shifted(selected, delta, visible.len() - 1);
            proof {
                assert(visible@.unref()[next as int] == *visible@[next as int]);
            }
            copied(visible[next].id.as_str())
        };
        self.select_container(next_id)
    }

    fn jump_container_selection(&mut self, end: bool) -> (commands: Vec<UiCommand>)
        ensures
            (final(self)@, ui_models(commands@)) == old(self)@.at_list_edge(end),
    {
        let next_id = {
            let visible = self.filtered_containers();
            if visible.len() == 0 {
                return no_commands();
            }
            let next: usize = if end { visible.len() - 1 } else { 0 };
            proof {
                assert(visible@.unref()[next as int] == *visible@[next as int]);
            }
            copied(visible[next].id.as_str())
        };
        self.select_container(next_id)
    }

    fn set_cursor(&mut self, row: usize)
        ensures
            final(self)@ == old(self)@.with_cursor(row as int),
    {
        let tab: usize = self.detail_tab.index();
        self.detail_cursor[tab] = row;
        self.ensure_detail_visible();
    }

    fn move_detail_selection(&mut self, delta: isize)
        ensures
            final(self)@ == old(self)@.moved_in_tab(delta as int),
    {
        let len: usize = self.selected_detail_items().len();
        if len == 0 {
            return;
        }
        let next: usize = shifted(self.selected_detail_index(), delta, len - 1);
        self.set_cursor(next);
    }

    fn move_by(&mut self, delta: isize) -> (commands: Vec<UiCommand>)
        ensures
            (final(self)@, ui_models(commands@)) == old(self)@.moved(delta as int),
    {
        match self.focus {
            Focus::Containers => self.move_container_selection(delta),
            Focus::Detail => {
                if self.detail_tab == DetailTab::Logs {
                    self.logs.move_selection(delta);
                    self.ensure_log_visible();
                } else {
                    self.move_detail_selection(delta);
                }
                no_commands()
            },
        }
    }

    fn jump_to_edge(&mut self, end: bool) -> (commands: Vec<UiCommand>)
        ensures
            (final(self)@, ui_models(commands@)) == old(self)@.at_edge(end),
    {
        match self.focus {
            Focus::Containers => self.jump_container_selection(end),
            Focus::Detail => {
                if self.detail_tab == DetailTab::Logs {
                    self.logs.jump_to_edge(end);
                    self.ensure_log_visible();
                } else {
                    let len: usize = self.selected_detail_items().len();
                    self.set_cursor(
                        if end {
                            last_of(len)
                        } else {
                            0
                        },
                    );
                }
                no_commands()
            },
        }
    }

    fn reconcile_selection(&mut self) -> (commands: Vec<UiCommand>)
        ensures
            (final(self)@, ui_models(commands@)) == old(self)@.reconciled(),
    {
        let next_id = {
            let visible = self.filtered_containers();
            if visible.len() == 0 {
                None
            } else {
                let index: usize = match self.selected_visible_index() {
                    Some(index) => index,
                    None => match &self.startup_container_query {
                        Some(query) => match find_asked_for(&visible, query.as_str()) {
                            Some(index) => index,
                            None => 0,
                        },
                        None => 0,
                    },
                };
                proof {
                    assert(visible@.unref()[index as int] == *visible@[index as int]);
                }
                Some(copied(visible[index].id.as_str()))
            }
        };
        match next_id {
            None => {
                self.selected_id = None;
                self.details = None;
                self.logs.clear();
                no_commands()
            },
            Some(id) => {
                let changed = !is_text(&self.selected_id, id.as_str());
                self.selected_id = Some(copied(id.as_str()));
                self.startup_container_query = None;
                self.ensure_container_visible();
                if changed {
                    self.details = None;
                    self.logs.begin_loading(Some(id));
                    self.selected_context_commands()
                } else {
                    no_commands()
                }
            },
        }
    }

    // -----------------------------------------------------------------------------------------
    // Keys
    // -----------------------------------------------------------------------------------------

    fn copy_selected_value(&self) -> (text: Option<String>)
        ensures
            text_of(text) == self@.copied_value(),
    {
        match self.focus {
            Focus::Detail => if self.detail_tab == DetailTab::Logs {
                self.logs.selected_text()
            } else {
                let items = self.selected_detail_items();
                let index: usize = self.selected_detail_index();
                if index < items.len() {
                    let head = concat(items[index].label.as_str(), ": ");
                    Some(concat(head.as_str(), items[index].value.as_str()))
                } else {
                    None
                }
            },
            Focus::Containers => match self.selected_container() {
                Some(container) => Some(copied(container.id.as_str())),
                None => None,
            },
        }
    }

    /// The keys and what they do.
    pub fn help_text(&self) -> (help: String)
        ensures
            help@ == self@.help(),
    {
        let keymap = &self.runtime.keymap;
        let mut help = display_binding(&keymap.quit, "q");
        help.append(" quit | tab focus | arrows move | 1-6 tabs | ");
        help.append(display_binding(&keymap.copy, "y").as_str());
        help.append(" copy | ");
        help.append(display_binding(&keymap.toggle_stopped, "a").as_str());
        help.append(" toggle stopped | ");
        help.append(display_binding(&keymap.start_stop, "s").as_str());
        help.append(" start/stop | ");
        help.append(display_binding(&keymap.restart, "r").as_str());
        help.append(" restart | ");
        help.append(display_binding(&keymap.remove, "D").as_str());
        help.append(" remove");
        if self.detail_tab == DetailTab::Logs {
            help.append(
                " | / search | f filter | m regex | space follow | w wrap | t timestamps | mouse drag select | drag scrollbar",
            );
        }
        help
    }

    fn cycle_tab(&mut self, forward: bool)
        ensures
            final(self)@ == old(self)@.with_next_tab(forward),
    {
        let tabs = DetailTab::all();
        let index: usize = self.detail_tab.index();
        let next: usize = if forward {
            if index == 5 {
                0
            } else {
                index + 1
            }
        } else if index == 0 {
            5
        } else {
            index - 1
        };
        self.detail_tab = tabs[next];
        self.ensure_detail_visible();
    }

    fn show_tab(&mut self, tab: DetailTab)
        ensures
            final(self)@ == old(self)@.with_tab(tab),
    {
        self.detail_tab = tab;
        if tab == DetailTab::Logs {
            self.ensure_log_visible();
        } else {
            self.ensure_detail_visible();
        }
    }

    fn handle_remove_confirmation(&mut self, code: KeyCode) -> (commands: Vec<UiCommand>)
        ensures
            (final(self)@, ui_models(commands@)) == old(self)@.confirming(code),
    {
        match code {
            KeyCode::Esc => {
                self.confirm_remove = false;
                self.set_status(copied("Remove canceled"));
                no_commands()
            },
            KeyCode::Enter => {
                self.confirm_remove = false;
                self.action_commands(ContainerAction::Remove)
            },
            _ => no_commands(),
        }
    }

    fn handle_input_key(&mut self, input: InputState, code: KeyCode)
        requires
            old(self)@.input == Some((input.kind, input.value@)),
        ensures
            final(self)@ == old(self)@.typing(input.kind, input.value@, code),
    {
        match code {
            KeyCode::Esc => {
                self.input = None;
            },
            KeyCode::Enter => {
                self.input = None;
                match input.kind {
                    InputKind::LogFilter => self.logs.set_filter_query(input.value),
                    InputKind::LogSearch => self.logs.set_search_query(input.value),
                }
                self.ensure_log_visible();
            },
            KeyCode::Backspace => {
                let value = without_last(input.value.as_str());
                self.input = Some(InputState { kind: input.kind, value });
            },
            KeyCode::Char(c) => {
                let mut value = input.value;
                value.push(c);
                self.input = Some(InputState { kind: input.kind, value });
            },
            _ => {},
        }
    }

    fn begin_input(&mut self, kind: InputKind, value: String)
        ensures
            final(self)@ == old(self)@.asking(kind, value@),
    {
        self.input = Some(InputState { kind, value });
    }

    /// Reacts to a character that is bound to nothing and belongs to the log view.
    fn handle_log_character(&mut self, c: char) -> (handled: bool)
        requires
            old(self)@.detail_tab == DetailTab::Logs,
        ensures
            handled == (c == '/' || c == 'f' || c == 'm' || c == 'n' || c == 'N' || c == ' ' || c
                == 'w' || c == 't'),
            handled ==> (final(self)@, Seq::<UiModel>::empty()) == old(self)@.character(c),
            !handled ==> final(self)@ == old(self)@,
    {
        match c {
            '/' => {
                let value = copied(self.logs.search_query.as_str());
                self.begin_input(InputKind::LogSearch, value);
            },
            'f' => {
                let value = copied(self.logs.filter_query.as_str());
                self.begin_input(InputKind::LogFilter, value);
            },
            'm' => {
                self.logs.toggle_filter_mode();
            },
            'n' => {
                self.logs.jump_to_match(false);
                self.ensure_log_visible();
            },
            'N' => {
                self.logs.jump_to_match(true);
                self.ensure_log_visible();
            },
            ' ' => {
                self.logs.toggle_follow();
                self.ensure_log_visible();
            },
            'w' => {
                self.logs.wrap = !self.logs.wrap;
                self.ensure_log_visible();
            },
            't' => {
                self.logs.show_timestamps = !self.logs.show_timestamps;
                self.ensure_log_visible();
            },
            _ => {
                return false;
            },
        }
        true
    }

    fn handle_character(&mut self, c: char) -> (commands: Vec<UiCommand>)
        ensures
            (final(self)@, ui_models(commands@)) == old(self)@.character(c),
    {
        match c {
            '1' => self.show_tab(DetailTab::Logs),
            '2' => self.show_tab(DetailTab::Overview),
            '3' => self.show_tab(DetailTab::Env),
            '4' => self.show_tab(DetailTab::Ports),
            '5' => self.show_tab(DetailTab::Mounts),
            '6' => self.show_tab(DetailTab::Health),
            'k' => {
                return self.move_by(-1);
            },
            'j' => {
                return self.move_by(1);
            },
            _ => {
                if self.detail_tab == DetailTab::Logs && self.handle_log_character(c) {
                    return no_commands();
                }
                if c == '?' || c == 'h' {
                    return only(UiCommand::SetStatus(self.help_text()));
                }
            },
        }
        no_commands()
    }

    fn handle_plain_key(&mut self, code: KeyCode) -> (commands: Vec<UiCommand>)
        ensures
            (final(self)@, ui_models(commands@)) == old(self)@.plain_key(code),
    {
        match code {
            KeyCode::Tab | KeyCode::BackTab => {
                self.focus = match self.focus {
                    Focus::Containers => Focus::Detail,
                    Focus::Detail => Focus::Containers,
                };
                no_commands()
            },
            KeyCode::Left => {
                if self.focus == Focus::Detail {
                    self.cycle_tab(false);
                }
                no_commands()
            },
            KeyCode::Right => {
                if self.focus == Focus::Detail {
                    self.cycle_tab(true);
                }
                no_commands()
            },
            KeyCode::Up => self.move_by(-1),
            KeyCode::Down => self.move_by(1),
            KeyCode::PageUp => self.move_by(-10),
            KeyCode::PageDown => self.move_by(10),
            KeyCode::Home => self.jump_to_edge(false),
            KeyCode::End => self.jump_to_edge(true),
            KeyCode::Char(c) => self.handle_character(c),
            _ => no_commands(),
        }
    }

    /// Reacts to a key.
    pub fn handle_key(&mut self, key: KeyEvent) -> (commands: Vec<UiCommand>)
        ensures
            (final(self)@, ui_models(commands@)) == old(self)@.after_key(key),
    {
        if self.confirm_remove {
            return self.handle_remove_confirmation(key.code);
        }
        let typed = match &self.input {
            Some(input) => Some(
                InputState { kind: input.kind, value: copied(input.value.as_str()) },
            ),
            None => None,
        };
        if let Some(input) = typed {
            self.handle_input_key(input, key.code);
            return no_commands();
        }
        let control = KeyModifiers { control: true, alt: false, shift: false };
        if matches_binding(key, &self.runtime.keymap.quit, "q", Some(('c', control))) {
            return only(UiCommand::Quit);
        }
        if matches_binding(key, &self.runtime.keymap.toggle_stopped, "a", None) {
            self.show_stopped = !self.show_stopped;
            return self.reconcile_selection();
        }
        if matches_binding(key, &self.runtime.keymap.copy, "y", None) {
            return match self.copy_selected_value() {
                Some(text) => only(UiCommand::Copy(text)),
                None => no_commands(),
            };
        }
        if matches_binding(key, &self.runtime.keymap.start_stop, "s", None) {
            return self.action_commands(ContainerAction::StartStop);
        }
        if matches_binding(key, &self.runtime.keymap.restart, "r", None) {
            return self.action_commands(ContainerAction::Restart);
        }
        if matches_binding(key, &self.runtime.keymap.remove, "D", None) {
            if self.selected_container().is_some() {
                self.confirm_remove = true;
                self.status = copied(
                    "Press Enter to remove the selected container, or Esc to cancel",
                );
            }
            return no_commands();
        }
        self.handle_plain_key(key.code)
    }

    // -----------------------------------------------------------------------------------------
    // The mouse
    // -----------------------------------------------------------------------------------------

    /// What a scrollbar stands for.
    pub fn scroll_metrics(&self, target: ScrollbarTarget) -> (metrics: ScrollMetrics)
        ensures
            metrics == self@.metrics(target),
    {
        let layout = self.layout();
        match target {
            ScrollbarTarget::Containers => ScrollMetrics::new(
                self.filtered_containers().len(),
                self.container_rows_height(),
                self.container_offset,
                layout.container_scrollbar,
            ),
            ScrollbarTarget::Detail => ScrollMetrics::new(
                self.selected_detail_items().len(),
                self.detail_rows_height(),
                self.detail_offset,
                layout.detail_scrollbar,
            ),
            ScrollbarTarget::Logs => ScrollMetrics::new(
                self.logs.filtered_len(),
                self.log_rows_height(),
                self.logs.scroll_top,
                layout.logs_scrollbar,
            ),
        }
    }

    fn scrollbar_target_at(&self, layout: AppLayout, x: u16, y: u16) -> (target: Option<
        ScrollbarTarget,
    >)
        requires
            layout == self@.layout(),
        ensures
            target == self@.scrollbar_at(x, y),
    {
        let logs = self.detail_tab == DetailTab::Logs;
        if contains(layout.container_scrollbar, x, y) {
            Some(ScrollbarTarget::Containers)
        } else if logs && contains(layout.logs_scrollbar, x, y) {
            Some(ScrollbarTarget::Logs)
        } else if !logs && contains(layout.detail_scrollbar, x, y) {
            Some(ScrollbarTarget::Detail)
        } else {
            None
        }
    }

    fn select_container_by_mouse_row(&mut self, row: u16) -> (commands: Vec<UiCommand>)
        ensures
            (final(self)@, ui_models(commands@)) == old(self)@.row_clicked(row),
    {
        let relative: u16 = row.saturating_sub(self.layout().container_view.y);
        if relative == 0 {
            return no_commands();
        }
        let id = {
            let visible = self.filtered_containers();
            let total: usize = visible.len();
            let index: usize = match self.container_offset.checked_add(relative as usize - 1) {
                Some(index) => index,
                None => total,
            };
            if index >= total {
                return no_commands();
            }
            proof {
                assert(visible@.unref()[index as int] == *visible@[index as int]);
            }
            copied(visible[index].id.as_str())
        };
        self.select_container(id)
    }

    fn select_tab_by_mouse_x(&mut self, x: u16)
        ensures
            final(self)@ == old(self)@.title_clicked(x),
    {
        let regions = detail_tab_regions(self.layout().detail_tabs_inner);
        let ghost all = tab_regions(self@.layout().detail_tabs_inner);
        let mut i: usize = 0;
        while i < regions.len()
            invariant
                i <= regions@.len(),
                self@ == old(self)@,
                all == tab_regions(self@.layout().detail_tabs_inner),
                regions@.map_values(|region: (DetailTab, u16, u16)| region_of(region)) == all,
                tab_at(all, x as int, 0) == tab_at(all, x as int, i as int),
            decreases regions@.len() - i,
        {
            let (tab, start, end) = regions[i];
            proof {
                let models = regions@.map_values(
                    |region: (DetailTab, u16, u16)| region_of(region),
                );
                assert(models.len() == regions@.len());
                assert(models[i as int] == region_of(regions@[i as int]));
            }
            if start <= x && x < end {
                self.show_tab(tab);
                return;
            }
            i += 1;
        }
        proof {
            let models = regions@.map_values(|region: (DetailTab, u16, u16)| region_of(region));
            assert(models.len() == regions@.len());
        }
    }

    fn select_detail_by_mouse_row(&mut self, row: u16)
        ensures
            final(self)@ == old(self)@.item_clicked(row),
    {
        let relative: u16 = row.saturating_sub(self.layout().detail_view.y);
        let len: usize = self.selected_detail_items().len();
        if len == 0 {
            return;
        }
        let index: usize = self.detail_offset.saturating_add(relative as usize);
        self.set_cursor(
            if index <= len - 1 {
                index
            } else {
                len - 1
            },
        );
    }

    fn select_log_row_from_mouse(&mut self, row: u16)
        ensures
            final(self)@ == old(self)@.line_clicked(row),
    {
        let relative: usize = row.saturating_sub(self.layout().logs_view.y) as usize;
        let height: usize = self.log_rows_height();
        if relative >= height {
            return;
        }
        let visible = self.visible_log_rows();
        proof {
            assert(row_models(visible@).len() == visible@.len());
        }
        if relative < visible.len() {
            proof {
                assert(row_models(visible@)[relative as int] == visible@[relative as int]@);
            }
            self.logs.start_mouse_selection(visible[relative].entry_index, height);
        }
    }

    fn extend_log_range(&mut self, line: usize, height: usize)
        ensures
            final(self)@ == (AppModel {
                logs: old(self)@.logs.range_extended(line as int, height as int),
                ..old(self)@
            }),
    {
        self.logs.update_mouse_selection(line, height);
    }

    fn update_log_drag(&mut self, row: u16)
        ensures
            final(self)@ == old(self)@.line_drawn(row),
    {
        let height: usize = self.log_rows_height();
        let wanted: usize = row.saturating_sub(self.layout().logs_view.y) as usize;
        let relative: usize = if wanted <= height - 1 { wanted } else { height - 1 };
        let visible = self.visible_log_rows();
        proof {
            assert(row_models(visible@).len() == visible@.len());
        }
        if relative < visible.len() {
            proof {
                assert(row_models(visible@)[relative as int] == visible@[relative as int]@);
            }
            self.extend_log_range(visible[relative].entry_index, height);
        }
    }

    fn press(&mut self, x: u16, y: u16) -> (commands: Vec<UiCommand>)
        ensures
            (final(self)@, ui_models(commands@)) == old(self)@.pressed(x, y),
    {
        let layout = self.layout();
        if let Some(target) = self.scrollbar_target_at(layout, x, y) {
            self.logs.finish_drag();
            self.focus = match target {
                ScrollbarTarget::Containers => Focus::Containers,
                ScrollbarTarget::Detail | ScrollbarTarget::Logs => Focus::Detail,
            };
            return only(UiCommand::GrabScrollbar { target, y });
        }
        if contains(layout.container_view, x, y) {
            self.focus = Focus::Containers;
            return self.select_container_by_mouse_row(y);
        }
        if contains(layout.detail_tabs_inner, x, y) {
            self.focus = Focus::Detail;
            self.select_tab_by_mouse_x(x);
            return no_commands();
        }
        if self.detail_tab == DetailTab::Logs && contains(layout.logs_view, x, y) {
            self.focus = Focus::Detail;
            self.scrollbar_drag = None;
            self.select_log_row_from_mouse(y);
            return no_commands();
        }
        if self.detail_tab != DetailTab::Logs && contains(layout.detail_view, x, y) {
            self.focus = Focus::Detail;
            self.scrollbar_drag = None;
            self.select_detail_by_mouse_row(y);
        }
        no_commands()
    }

    fn draw(&mut self, x: u16, y: u16) -> (commands: Vec<UiCommand>)
        ensures
            (final(self)@, ui_models(commands@)) == old(self)@.drawn(x, y),
    {
        if let Some(drag) = self.scrollbar_drag {
            return only(
                UiCommand::DragScrollbar {
                    target: drag.target,
                    y,
                    grab_offset: drag.grab_offset,
                },
            );
        }
        if self.detail_tab == DetailTab::Logs && self.logs.drag_active && contains(
            self.layout().logs_view,
            x,
            y,
        ) {
            self.update_log_drag(y);
        }
        no_commands()
    }

    fn wheel(&mut self, delta: isize, x: u16, y: u16) -> (commands: Vec<UiCommand>)
        ensures
            (final(self)@, ui_models(commands@)) == old(self)@.wheeled(delta as int, x, y),
    {
        let layout = self.layout();
        if self.detail_tab == DetailTab::Logs && contains(layout.logs_outer, x, y) {
            self.focus = Focus::Detail;
            self.logs.move_selection(delta);
            self.ensure_log_visible();
            return no_commands();
        }
        if contains(layout.container_outer, x, y) {
            self.focus = Focus::Containers;
            return self.move_container_selection(delta);
        }
        if contains(layout.detail_outer, x, y) {
            self.focus = Focus::Detail;
            self.move_detail_selection(delta);
        }
        no_commands()
    }

    /// Reacts to the mouse.
    pub fn handle_mouse(&mut self, mouse: MouseEvent) -> (commands: Vec<UiCommand>)
        ensures
            (final(self)@, ui_models(commands@)) == old(self)@.after_mouse(mouse),
    {
        if self.confirm_remove || self.input.is_some() {
            return no_commands();
        }
        let x: u16 = mouse.column;
        let y: u16 = mouse.row;
        match mouse.kind {
            MouseEventKind::Down(MouseButton::Left) => self.press(x, y),
            MouseEventKind::Drag(MouseButton::Left) => self.draw(x, y),
            MouseEventKind::Up(MouseButton::Left) => {
                self.logs.finish_drag();
                self.scrollbar_drag = None;
                no_commands()
            },
            MouseEventKind::ScrollUp => self.wheel(-1, x, y),
            MouseEventKind::ScrollDown => self.wheel(1, x, y),
            _ => no_commands(),
        }
    }

    /// Takes hold of a thumb, given where it is, and asks for it to be dragged.
    pub fn begin_scrollbar_drag(
        &mut self,
        target: ScrollbarTarget,
        y: u16,
        thumb_top: u16,
        thumb_length: u16,
    ) -> (commands: Vec<UiCommand>)
        ensures
            final(self)@ == old(self)@.holding(target, y, thumb_top, thumb_length),
            ui_models(commands@) == seq![
                UiModel::DragScrollbar {
                    target,
                    y,
                    grab_offset: grab_of(thumb_top, thumb_length, y),
                },
            ],
    {
        let grab_offset: u16 = grab_offset(thumb_top, thumb_length, y);
        self.scrollbar_drag = Some(ScrollbarDrag { target, grab_offset });
        only(UiCommand::DragScrollbar { target, y, grab_offset })
    }

    /// Scrolls to the position that a dragged thumb stands for, given what its distance from the
    /// top of its bar comes to.
    pub fn apply_scrollbar_drag(
        &mut self,
        target: ScrollbarTarget,
        thumb_length: u16,
        position: usize,
    )
        ensures
            final(self)@ == old(self)@.scrolled_to(
                target,
                position_of(old(self)@.metrics(target), thumb_length, position) as int,
            ),
    {
        let position: usize = self.scroll_metrics(target).position_for_thumb_top(
            thumb_length,
            position,
        );
        match target {
            ScrollbarTarget::Containers => {
                let highest: usize = self.filtered_containers().len().saturating_sub(
                    self.container_rows_height(),
                );
                self.container_offset = if position <= highest { position } else { highest };
            },
            ScrollbarTarget::Detail => {
                let highest: usize = self.selected_detail_items().len().saturating_sub(
                    self.detail_rows_height(),
                );
                self.detail_offset = if position <= highest { position } else { highest };
            },
            ScrollbarTarget::Logs => {
                let rows: usize = self.log_rows_height();
                self.logs.set_scroll_top(position, rows);
            },
        }
    }

    // -----------------------------------------------------------------------------------------
    // The engine
    // -----------------------------------------------------------------------------------------

    fn list_containers(&mut self, containers: Vec<ContainerRecord>) -> (commands: Vec<UiCommand>)
        ensures
            (final(self)@, ui_models(commands@)) == old(self)@.listing(containers@),
    {
        self.containers = containers;
        if self.containers.len() == 0 {
            self.selected_id = None;
            self.details = None;
            self.logs.clear();
            self.set_status(copied("No containers found"));
            return no_commands();
        }
        let mut status = decimal_usize(self.containers.len());
        status.append(" containers loaded (");
        status.append(decimal_usize(count_running(&self.containers)).as_str());
        status.append(" running)");
        self.set_status(status);
        let commands = self.reconcile_selection();
        self.ensure_container_visible();
        commands
    }

    fn take_lines(&mut self, entries: Vec<LogEntry>)
        ensures
            final(self)@ == old(self)@.with_logs(old(self)@.logs.appended(entries@).loaded()),
    {
        self.logs.append(entries);
        self.logs.finish_loading();
        self.ensure_log_visible();
    }

    fn note_success(&mut self, message: String) -> (commands: Vec<UiCommand>)
        ensures
            final(self)@ == old(self)@.with_status(message@),
            ui_models(commands@) == seq![UiModel::Docker(RequestModel::RefreshContainers)] + match old(self)@.selected() {
                Some(container) => seq![
                    UiModel::Docker(RequestModel::LoadInspect { id: container@.id }),
                ],
                None => Seq::empty(),
            },
    {
        self.set_status(message);
        let mut commands = only(UiCommand::Docker(DockerCommand::RefreshContainers));
        let ghost first = commands@;
        if let Some(container) = self.selected_container() {
            let id = copied(container.id.as_str());
            commands.push(UiCommand::Docker(DockerCommand::LoadInspect { id }));
            proof {
                assert(ui_models(commands@) =~= ui_models(first) + seq![
                    UiModel::Docker(RequestModel::LoadInspect { id: id@ }),
                ]);
            }
        } else {
            proof {
                assert(ui_models(commands@) =~= ui_models(first) + Seq::<UiModel>::empty());
            }
        }
        commands
    }

    /// Reacts to what the engine says. Containers are brought into order before they are listed.
    pub fn apply_docker_event(&mut self, event: DockerEvent) -> (commands: Vec<UiCommand>)
        ensures
            (final(self)@, ui_models(commands@)) == old(self)@.after_event(
                event,
                final(self)@.containers,
            ),
            event matches DockerEvent::ContainersUpdated(containers) ==> stably_sorted(
                containers@,
                final(self)@.containers,
            ),
    {
        match event {
            DockerEvent::Connected(message) => {
                self.set_status(message);
                no_commands()
            },
            DockerEvent::ContainersUpdated(containers) => {
                let mut ordered = containers;
                sort_containers(&mut ordered);
                self.list_containers(ordered)
            },
            DockerEvent::InspectLoaded { id, details } => {
                if is_text(&self.selected_id, id.as_str()) {
                    self.details = Some(details);
                }
                no_commands()
            },
            DockerEvent::LogsReset { id } => {
                if is_text(&self.selected_id, id.as_str()) {
                    self.logs.reset(id);
                }
                no_commands()
            },
            DockerEvent::LogsReady { id } => {
                if is_text(&self.selected_id, id.as_str()) {
                    self.logs.finish_loading();
                }
                no_commands()
            },
            DockerEvent::LogChunk { id, entries } => {
                if is_text(&self.selected_id, id.as_str()) {
                    self.take_lines(entries);
                }
                no_commands()
            },
            DockerEvent::OperationSucceeded(message) => self.note_success(message),
            DockerEvent::OperationFailed(message) => {
                self.set_error(message);
                no_commands()
            },
        }
    }
}

} // verus!
