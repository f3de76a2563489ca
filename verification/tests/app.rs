use dui::config::{KeymapConfig, RuntimeConfig, ThemeName};
use dui::docker::{ContainerAction, DockerCommand, DockerEvent};
use dui::keys::{KeyCode, KeyEvent, KeyModifiers, MouseButton, MouseEvent, MouseEventKind};
use dui::layout::{Rect, Sections};
use dui::model::{ContainerDetails, ContainerRecord, DetailItem, LogEntry};
use dui::state::{App, Focus, ScrollbarTarget, UiCommand};
use dui::tab::DetailTab;

fn test_runtime() -> RuntimeConfig {
    RuntimeConfig {
        theme: ThemeName::Graphite,
        show_stopped_by_default: false,
        log_backlog_lines: 400,
        show_timestamps: true,
        keymap: KeymapConfig::default(),
        docker_host: None,
        project_filter: None,
        startup_container_query: None,
    }
}

fn sample_container(index: usize) -> ContainerRecord {
    ContainerRecord {
        id: format!("container-{index}"),
        short_id: format!("c{index:02}"),
        name: format!("service-{index}"),
        image: "demo:latest".into(),
        command: "sleep infinity".into(),
        state: "running".into(),
        status: "Up".into(),
        project: Some("demo".into()),
        service: Some(format!("svc-{index}")),
        ports: Vec::new(),
        health: None,
        created: Some(index as i64),
    }
}

fn stopped_container(index: usize) -> ContainerRecord {
    let mut container = sample_container(index);
    container.state = "exited".into();
    container.status = "Exited (0)".into();
    container
}

fn key(code: KeyCode) -> KeyEvent {
    KeyEvent { code, modifiers: KeyModifiers { control: false, alt: false, shift: false } }
}

fn shifted_key(c: char) -> KeyEvent {
    KeyEvent {
        code: KeyCode::Char(c),
        modifiers: KeyModifiers { control: false, alt: false, shift: true },
    }
}

fn press(app: &mut App, c: char) -> Vec<String> {
    said(app.handle_key(key(KeyCode::Char(c))))
}

fn mouse(kind: MouseEventKind, column: u16, row: u16) -> MouseEvent {
    MouseEvent { kind, column, row }
}

fn said(commands: Vec<UiCommand>) -> Vec<String> {
    commands
        .into_iter()
        .map(|command| match command {
            UiCommand::Quit => "quit".to_string(),
            UiCommand::Copy(text) => format!("copy {text}"),
            UiCommand::SetStatus(text) => format!("status {text}"),
            UiCommand::Docker(DockerCommand::RefreshContainers) => "refresh".to_string(),
            UiCommand::Docker(DockerCommand::LoadInspect { id }) => format!("inspect {id}"),
            UiCommand::Docker(DockerCommand::WatchLogs { id }) => format!("watch {id}"),
            UiCommand::Docker(DockerCommand::Action { id, action }) => match action {
                ContainerAction::StartStop => format!("start-stop {id}"),
                ContainerAction::Restart => format!("restart {id}"),
                ContainerAction::Remove => format!("remove {id}"),
            },
            UiCommand::GrabScrollbar { target, y } => format!("grab {target:?} {y}"),
            UiCommand::DragScrollbar { target, y, grab_offset } => {
                format!("drag {target:?} {y} {grab_offset}")
            }
        })
        .collect()
}

/// Sections of a screen of forty columns: the list at the left, the tabs and the contents at the
/// right.
fn sections() -> Sections {
    Sections {
        containers: Rect::new(0, 0, 20, 12),
        tabs: Rect::new(20, 0, 60, 3),
        detail: Rect::new(20, 3, 60, 9),
        status: Rect::new(0, 12, 80, 2),
        footer: Rect::new(0, 14, 80, 1),
    }
}

fn app_with(count: usize) -> App {
    let mut app = App::new(test_runtime(), None);
    app.set_sections(Rect::new(0, 0, 80, 15), sections());
    app.apply_docker_event(DockerEvent::ContainersUpdated(
        (0..count).map(sample_container).collect(),
    ));
    app
}

fn details() -> ContainerDetails {
    let item = |label: &str| DetailItem { label: label.into(), value: format!("{label}-value") };
    ContainerDetails {
        overview: vec![item("Name"), item("Image"), item("State")],
        env: vec![item("A"), item("B")],
        ports: Vec::new(),
        mounts: Vec::new(),
        health: Vec::new(),
    }
}

fn chunk(id: &str, lines: &[&str]) -> DockerEvent {
    DockerEvent::LogChunk {
        id: id.to_string(),
        entries: lines.iter().map(|line| LogEntry::parse("stdout", line)).collect(),
    }
}

#[test]
fn set_viewport_keeps_manual_scroll_when_size_is_unchanged() {
    let mut app = App::new(test_runtime(), None);
    app.containers = (0..20).map(sample_container).collect();
    app.selected_id = Some(app.containers[0].id.clone());

    let viewport = Rect::new(0, 0, 120, 40);
    app.set_viewport(viewport);
    app.container_offset = 7;
    app.set_viewport(viewport);

    assert_eq!(app.container_offset, 7);
}

#[test]
fn viewport_is_split_into_list_tabs_and_contents() {
    let mut app = App::new(test_runtime(), None);
    app.set_viewport(Rect::new(0, 0, 100, 40));
    assert_eq!(app.sections.containers, Rect::new(0, 0, 44, 37));
    assert_eq!(app.sections.tabs, Rect::new(44, 0, 56, 3));
    assert_eq!(app.sections.detail, Rect::new(44, 3, 56, 34));
    app.set_viewport(Rect::new(0, 0, 0, 0));
    assert_eq!(app.sections.detail.height, 0);
}

#[test]
fn wheel_over_the_first_container_row_moves_the_selection() {
    let mut app = App::new(test_runtime(), None);
    app.set_viewport(Rect::new(0, 0, 120, 40));
    let named = |id: &str| {
        let mut container = sample_container(0);
        container.id = id.into();
        container.name = id.into();
        container.project = None;
        container.service = None;
        container
    };
    app.apply_docker_event(DockerEvent::ContainersUpdated(vec![
        named("c0"),
        named("c1"),
        named("c2"),
    ]));
    app.handle_mouse(mouse(MouseEventKind::ScrollDown, 5, 2));
    assert_eq!(app.selected_id.as_deref(), Some("c1"));
    app.handle_mouse(mouse(MouseEventKind::Down(MouseButton::Left), 5, 2));
    assert_eq!(app.selected_id.as_deref(), Some("c0"));
    app.handle_mouse(mouse(MouseEventKind::Down(MouseButton::Left), 5, 4));
    assert_eq!(app.selected_id.as_deref(), Some("c2"));
}

#[test]
fn resized_screen_scrolls_to_the_selection() {
    let mut app = app_with(20);
    said(app.handle_key(key(KeyCode::End)));
    assert_eq!(app.container_offset, 11);
    let mut smaller = sections();
    smaller.containers = Rect::new(0, 0, 20, 6);
    app.set_sections(Rect::new(0, 0, 80, 14), smaller);
    assert_eq!(app.container_offset, 17);
}

#[test]
fn start_takes_over_the_settings() {
    let mut runtime = test_runtime();
    runtime.show_stopped_by_default = true;
    runtime.project_filter = Some("demo".into());
    let app = App::new(runtime, Some("/tmp/dui.toml".into()));
    assert_eq!(app.status, "Config: /tmp/dui.toml");
    assert!(app.show_stopped);
    assert_eq!(app.project_filter.as_deref(), Some("demo"));
    assert_eq!(app.logs.max_entries, 8000);
    assert_eq!(app.bootstrap_commands().len(), 0);
    assert_eq!(App::new(test_runtime(), None).status, "Config: defaults");
    let mut endless = test_runtime();
    endless.log_backlog_lines = usize::MAX;
    assert_eq!(App::new(endless, None).logs.max_entries, usize::MAX);
}

#[test]
fn containers_are_ordered_and_the_first_one_is_selected() {
    let mut app = App::new(test_runtime(), None);
    let commands = said(app.apply_docker_event(DockerEvent::ContainersUpdated(vec![
        stopped_container(0),
        sample_container(2),
        sample_container(1),
    ])));
    assert_eq!(commands, vec!["inspect container-1", "watch container-1"]);
    assert_eq!(app.status, "3 containers loaded (2 running)");
    let listed: Vec<&str> = app.filtered_containers().iter().map(|c| c.id.as_str()).collect();
    assert_eq!(listed, vec!["container-1", "container-2"]);
    assert_eq!(app.containers[2].id, "container-0");
    assert_eq!(app.selected_visible_index(), Some(0));
    assert!(app.logs.loading);
}

#[test]
fn no_containers_clear_everything() {
    let mut app = app_with(2);
    app.apply_docker_event(chunk("container-0", &["x"]));
    let commands = app.apply_docker_event(DockerEvent::ContainersUpdated(Vec::new()));
    assert_eq!(commands.len(), 0);
    assert_eq!(app.status, "No containers found");
    assert_eq!(app.selected_id, None);
    assert_eq!(app.logs.entries.len(), 0);
    assert!(app.selected_container().is_none());
}

#[test]
fn refresh_keeps_a_listed_selection() {
    let mut app = app_with(3);
    press(&mut app, 'j');
    app.apply_docker_event(chunk("container-1", &["x"]));
    let commands = app.apply_docker_event(DockerEvent::ContainersUpdated(
        (0..5).map(sample_container).collect(),
    ));
    assert_eq!(commands.len(), 0);
    assert_eq!(app.selected_id.as_deref(), Some("container-1"));
    assert_eq!(app.logs.entries.len(), 1);
    let gone = said(app.apply_docker_event(DockerEvent::ContainersUpdated(vec![
        sample_container(4),
    ])));
    assert_eq!(gone, vec!["inspect container-4", "watch container-4"]);
    assert_eq!(app.logs.entries.len(), 0);
}

#[test]
fn the_same_list_again_changes_nothing() {
    let containers = || vec![stopped_container(3), sample_container(2), sample_container(1)];
    let mut app = app_with(2);
    app.apply_docker_event(DockerEvent::ContainersUpdated(containers()));
    app.apply_docker_event(chunk("container-1", &["x", "y"]));
    let told = |app: &App| {
        let ids: Vec<String> = app.containers.iter().map(|c| c.id.clone()).collect();
        let entries = app.logs.entries.len();
        (ids, app.selected_id.clone(), app.status.clone(), entries, app.container_offset)
    };
    let before = told(&app);
    assert_eq!(before.1.as_deref(), Some("container-1"));
    assert_eq!(before.3, 2);
    let commands = app.apply_docker_event(DockerEvent::ContainersUpdated(containers()));
    assert_eq!(commands.len(), 0);
    assert_eq!(told(&app), before);
    assert_eq!(app.last_error, None);
}

#[test]
fn startup_query_prefers_name_prefix_and_full_id() {
    let mut runtime = test_runtime();
    runtime.startup_container_query = Some("API".into());
    let mut app = App::new(runtime, None);
    let mut first = sample_container(0);
    first.name = "web".into();
    first.image = "api:latest".into();
    let mut second = sample_container(1);
    second.name = "worker-api".into();
    let mut third = sample_container(2);
    third.name = "api-1".into();
    app.apply_docker_event(DockerEvent::ContainersUpdated(vec![first, second, third]));
    assert_eq!(app.selected_id.as_deref(), Some("container-2"));
    assert_eq!(app.startup_container_query, None);
}

#[test]
fn startup_query_by_full_id() {
    let mut runtime = test_runtime();
    runtime.startup_container_query = Some("container-1".into());
    let mut app = App::new(runtime, None);
    let mut decoy = sample_container(0);
    decoy.image = "container-1".into();
    app.apply_docker_event(DockerEvent::ContainersUpdated(vec![decoy, sample_container(1)]));
    assert_eq!(app.selected_id.as_deref(), Some("container-1"));
}

#[test]
fn startup_query_falls_back_to_any_match_and_to_the_first() {
    let mut runtime = test_runtime();
    runtime.startup_container_query = Some("vc-2".into());
    let mut app = App::new(runtime, None);
    app.apply_docker_event(DockerEvent::ContainersUpdated(
        (0..4).map(sample_container).collect(),
    ));
    assert_eq!(app.selected_id.as_deref(), Some("container-2"));
    let mut runtime = test_runtime();
    runtime.startup_container_query = Some("nothing".into());
    let mut app = App::new(runtime, None);
    app.apply_docker_event(DockerEvent::ContainersUpdated(
        (0..4).map(sample_container).collect(),
    ));
    assert_eq!(app.selected_id.as_deref(), Some("container-0"));
}

#[test]
fn keys_quit() {
    let mut app = app_with(1);
    assert_eq!(press(&mut app, 'q'), vec!["quit"]);
    let control_c = KeyEvent {
        code: KeyCode::Char('c'),
        modifiers: KeyModifiers { control: true, alt: false, shift: false },
    };
    assert_eq!(said(app.handle_key(control_c)), vec!["quit"]);
}

#[test]
fn configured_keys_replace_the_default_ones() {
    let mut runtime = test_runtime();
    runtime.keymap.quit = Some("Ctrl+X".into());
    let mut app = App::new(runtime, None);
    assert_eq!(press(&mut app, 'q').len(), 0);
    let control_x = KeyEvent {
        code: KeyCode::Char('X'),
        modifiers: KeyModifiers { control: true, alt: false, shift: false },
    };
    assert_eq!(said(app.handle_key(control_x)), vec!["quit"]);
}

#[test]
fn stopped_containers_are_toggled() {
    let mut app = App::new(test_runtime(), None);
    app.apply_docker_event(DockerEvent::ContainersUpdated(vec![stopped_container(0)]));
    assert_eq!(app.selected_id, None);
    assert_eq!(press(&mut app, 'a'), vec!["inspect container-0", "watch container-0"]);
    assert_eq!(app.filtered_containers().len(), 1);
    assert_eq!(press(&mut app, 'a').len(), 0);
    assert_eq!(app.selected_id, None);
}

#[test]
fn project_filter_limits_the_list() {
    let mut runtime = test_runtime();
    runtime.project_filter = Some("other".into());
    let mut app = App::new(runtime, None);
    let mut other = sample_container(1);
    other.project = Some("other".into());
    app.apply_docker_event(DockerEvent::ContainersUpdated(vec![sample_container(0), other]));
    assert_eq!(app.filtered_containers().len(), 1);
    assert_eq!(app.selected_id.as_deref(), Some("container-1"));
}

#[test]
fn copy_depends_on_the_focus() {
    let mut app = app_with(2);
    assert_eq!(press(&mut app, 'y'), vec!["copy container-0"]);
    app.apply_docker_event(chunk("container-0", &["one", "two"]));
    app.handle_key(key(KeyCode::Tab));
    assert_eq!(press(&mut app, 'y'), vec!["copy two"]);
    app.apply_docker_event(DockerEvent::InspectLoaded {
        id: "container-0".into(),
        details: details(),
    });
    press(&mut app, '2');
    press(&mut app, 'j');
    assert_eq!(press(&mut app, 'y'), vec!["copy Image: Image-value"]);
    press(&mut app, '4');
    assert_eq!(press(&mut app, 'y').len(), 0);
}

#[test]
fn actions_go_to_the_selected_container() {
    let mut app = app_with(2);
    assert_eq!(press(&mut app, 's'), vec!["start-stop container-0"]);
    assert_eq!(press(&mut app, 'r'), vec!["restart container-0"]);
    let mut empty = App::new(test_runtime(), None);
    assert_eq!(press(&mut empty, 's').len(), 0);
    assert_eq!(press(&mut empty, 'r').len(), 0);
    assert_eq!(said(empty.handle_key(shifted_key('D'))).len(), 0);
    assert!(!empty.confirm_remove);
}

#[test]
fn removal_needs_enter() {
    let mut app = app_with(2);
    assert_eq!(said(app.handle_key(shifted_key('D'))).len(), 0);
    assert!(app.confirm_remove);
    assert_eq!(app.status, "Press Enter to remove the selected container, or Esc to cancel");
    assert_eq!(press(&mut app, 'q').len(), 0);
    assert_eq!(said(app.handle_key(key(KeyCode::Enter))), vec!["remove container-0"]);
    assert!(!app.confirm_remove);
    app.handle_key(shifted_key('D'));
    assert_eq!(said(app.handle_key(key(KeyCode::Esc))).len(), 0);
    assert_eq!(app.status, "Remove canceled");
    assert!(!app.confirm_remove);
}

#[test]
fn tab_switches_the_focus_back_and_forth() {
    let mut app = app_with(1);
    app.handle_key(key(KeyCode::Tab));
    assert_eq!(app.focus, Focus::Detail);
    app.handle_key(key(KeyCode::BackTab));
    assert_eq!(app.focus, Focus::Containers);
}

#[test]
fn arrows_go_round_the_tabs_where_the_detail_pane_has_the_focus() {
    let mut app = app_with(1);
    app.handle_key(key(KeyCode::Right));
    assert_eq!(app.detail_tab, DetailTab::Logs);
    app.handle_key(key(KeyCode::Tab));
    app.handle_key(key(KeyCode::Left));
    assert_eq!(app.detail_tab, DetailTab::Health);
    app.handle_key(key(KeyCode::Right));
    app.handle_key(key(KeyCode::Right));
    assert_eq!(app.detail_tab, DetailTab::Overview);
}

#[test]
fn digits_select_tabs() {
    let mut app = app_with(1);
    for (digit, tab) in ['1', '2', '3', '4', '5', '6'].into_iter().zip(DetailTab::all()) {
        press(&mut app, digit);
        assert_eq!(app.detail_tab, tab);
    }
}

#[test]
fn list_is_walked_by_keys() {
    let mut app = app_with(25);
    assert_eq!(press(&mut app, 'j'), vec!["inspect container-1", "watch container-1"]);
    assert_eq!(press(&mut app, 'k'), vec!["inspect container-0", "watch container-0"]);
    assert_eq!(press(&mut app, 'k').len(), 0);
    app.handle_key(key(KeyCode::PageDown));
    assert_eq!(app.selected_visible_index(), Some(10));
    assert_eq!(app.container_offset, 2);
    app.handle_key(key(KeyCode::PageUp));
    assert_eq!(app.selected_visible_index(), Some(0));
    assert_eq!(app.container_offset, 0);
    app.handle_key(key(KeyCode::End));
    assert_eq!(app.selected_visible_index(), Some(24));
    app.handle_key(key(KeyCode::Home));
    assert_eq!(app.selected_visible_index(), Some(0));
    app.handle_key(key(KeyCode::Down));
    app.handle_key(key(KeyCode::Up));
    assert_eq!(app.selected_visible_index(), Some(0));
}

#[test]
fn details_are_walked_by_keys_and_remembered_for_each_tab() {
    let mut app = app_with(1);
    app.apply_docker_event(DockerEvent::InspectLoaded {
        id: "container-0".into(),
        details: details(),
    });
    app.handle_key(key(KeyCode::Tab));
    press(&mut app, '2');
    app.handle_key(key(KeyCode::End));
    assert_eq!(app.selected_detail_index(), 2);
    press(&mut app, '3');
    assert_eq!(app.selected_detail_index(), 0);
    press(&mut app, 'j');
    press(&mut app, 'j');
    assert_eq!(app.selected_detail_index(), 1);
    press(&mut app, '2');
    assert_eq!(app.selected_detail_index(), 2);
    app.handle_key(key(KeyCode::Home));
    assert_eq!(app.selected_detail_index(), 0);
    assert_eq!(app.selected_detail_items().len(), 3);
}

#[test]
fn log_keys_change_the_log_view() {
    let mut app = app_with(1);
    app.apply_docker_event(chunk("container-0", &["one", "two", "one more"]));
    press(&mut app, ' ');
    assert!(!app.logs.follow);
    press(&mut app, 'w');
    assert!(app.logs.wrap);
    press(&mut app, 't');
    assert!(!app.logs.show_timestamps);
    press(&mut app, '/');
    for c in "onx".chars() {
        press(&mut app, c);
    }
    app.handle_key(key(KeyCode::Backspace));
    press(&mut app, 'e');
    assert_eq!(app.input.as_ref().map(|input| input.value.as_str()), Some("one"));
    app.handle_key(key(KeyCode::Enter));
    assert!(app.input.is_none());
    assert_eq!(app.logs.search_query, "one");
    assert_eq!(app.logs.selected, 0);
    press(&mut app, 'n');
    assert_eq!(app.logs.selected, 2);
    app.handle_key(shifted_key('N'));
    assert_eq!(app.logs.selected, 0);
    press(&mut app, 'f');
    press(&mut app, 'o');
    app.handle_key(key(KeyCode::Esc));
    assert_eq!(app.logs.filter_query, "");
    press(&mut app, 'f');
    for c in "two".chars() {
        press(&mut app, c);
    }
    app.handle_key(key(KeyCode::Enter));
    assert_eq!(app.logs.filtered_len(), 1);
    press(&mut app, 'm');
    assert_eq!(app.logs.filtered_len(), 1);
    press(&mut app, '2');
    press(&mut app, 'm');
    press(&mut app, '/');
    assert!(app.input.is_none());
}

#[test]
fn help_names_the_keys() {
    let mut app = app_with(1);
    assert_eq!(
        app.help_text(),
        "q quit | tab focus | arrows move | 1-6 tabs | y copy | a toggle stopped | s start/stop | \
         r restart | D remove | / search | f filter | m regex | space follow | w wrap | \
         t timestamps | mouse drag select | drag scrollbar"
    );
    press(&mut app, '2');
    let help = app.help_text();
    assert!(help.ends_with("| D remove"));
    assert_eq!(press(&mut app, '?'), vec![format!("status {help}")]);
    assert_eq!(press(&mut app, 'h').len(), 1);
    assert_eq!(press(&mut app, 'z').len(), 0);
}

#[test]
fn events_of_other_containers_are_passed_over() {
    let mut app = app_with(2);
    app.apply_docker_event(chunk("container-1", &["x"]));
    assert_eq!(app.logs.entries.len(), 0);
    app.apply_docker_event(DockerEvent::InspectLoaded {
        id: "container-1".into(),
        details: details(),
    });
    assert!(app.details.is_none());
    app.apply_docker_event(DockerEvent::LogsReady { id: "container-1".into() });
    assert!(app.logs.loading);
    app.apply_docker_event(DockerEvent::LogsReady { id: "container-0".into() });
    assert!(!app.logs.loading);
    app.apply_docker_event(DockerEvent::LogsReset { id: "container-0".into() });
    assert!(app.logs.loading);
}

#[test]
fn results_are_said_in_the_status_line() {
    let mut app = app_with(1);
    let commands =
        said(app.apply_docker_event(DockerEvent::OperationSucceeded("Stopped x".into())));
    assert_eq!(commands, vec!["refresh", "inspect container-0"]);
    assert_eq!((app.status.as_str(), app.last_error.as_deref()), ("Stopped x", None));
    assert_eq!(app.apply_docker_event(DockerEvent::OperationFailed("no".into())).len(), 0);
    assert_eq!((app.status.as_str(), app.last_error.as_deref()), ("no", Some("no")));
    app.apply_docker_event(DockerEvent::Connected("Connected to 1".into()));
    assert_eq!((app.status.as_str(), app.last_error.as_deref()), ("Connected to 1", None));
    let mut empty = App::new(test_runtime(), None);
    let only = said(empty.apply_docker_event(DockerEvent::OperationSucceeded("x".into())));
    assert_eq!(only, vec!["refresh"]);
}

#[test]
fn list_is_clicked() {
    let mut app = app_with(5);
    let down = MouseEventKind::Down(MouseButton::Left);
    assert_eq!(
        said(app.handle_mouse(mouse(down, 3, 4))),
        vec!["inspect container-2", "watch container-2"]
    );
    assert_eq!(said(app.handle_mouse(mouse(down, 3, 4))).len(), 0);
    assert_eq!(said(app.handle_mouse(mouse(down, 3, 1))).len(), 0);
    assert_eq!(said(app.handle_mouse(mouse(down, 3, 9))).len(), 0);
    assert_eq!(app.selected_id.as_deref(), Some("container-2"));
    let right = MouseEventKind::Down(MouseButton::Right);
    assert_eq!(said(app.handle_mouse(mouse(right, 3, 2))).len(), 0);
}

#[test]
fn titles_are_clicked() {
    let mut app = app_with(1);
    let down = MouseEventKind::Down(MouseButton::Left);
    app.handle_mouse(mouse(down, 31, 1));
    assert_eq!((app.detail_tab, app.focus), (DetailTab::Overview, Focus::Detail));
    app.handle_mouse(mouse(down, 21, 1));
    assert_eq!(app.detail_tab, DetailTab::Logs);
    app.handle_mouse(mouse(down, 29, 1));
    assert_eq!(app.detail_tab, DetailTab::Logs);
}

#[test]
fn details_are_clicked() {
    let mut app = app_with(1);
    app.apply_docker_event(DockerEvent::InspectLoaded {
        id: "container-0".into(),
        details: details(),
    });
    press(&mut app, '2');
    let down = MouseEventKind::Down(MouseButton::Left);
    app.handle_mouse(mouse(down, 30, 5));
    assert_eq!((app.selected_detail_index(), app.focus), (1, Focus::Detail));
    app.handle_mouse(mouse(down, 30, 9));
    assert_eq!(app.selected_detail_index(), 2);
}

#[test]
fn log_range_is_drawn_with_the_mouse() {
    let mut app = app_with(1);
    app.apply_docker_event(chunk("container-0", &["0", "1", "2", "3"]));
    app.handle_mouse(mouse(MouseEventKind::Down(MouseButton::Left), 30, 4));
    app.handle_mouse(mouse(MouseEventKind::Drag(MouseButton::Left), 30, 6));
    app.handle_mouse(mouse(MouseEventKind::Up(MouseButton::Left), 30, 6));
    assert_eq!(press(&mut app, 'y'), vec!["copy 0\n1\n2"]);
    app.handle_mouse(mouse(MouseEventKind::Drag(MouseButton::Left), 30, 7));
    assert_eq!(press(&mut app, 'y'), vec!["copy 0\n1\n2"]);
}

#[test]
fn wheel_moves_the_hovered_selection() {
    let mut app = app_with(3);
    app.apply_docker_event(chunk("container-0", &["0", "1", "2"]));
    app.handle_mouse(mouse(MouseEventKind::ScrollUp, 30, 5));
    assert_eq!((app.logs.selected, app.focus), (1, Focus::Detail));
    app.handle_mouse(mouse(MouseEventKind::ScrollDown, 30, 5));
    assert_eq!(app.logs.selected, 2);
    let moved = said(app.handle_mouse(mouse(MouseEventKind::ScrollDown, 3, 5)));
    assert_eq!(moved, vec!["inspect container-1", "watch container-1"]);
    assert_eq!(app.focus, Focus::Containers);
    app.apply_docker_event(DockerEvent::InspectLoaded {
        id: "container-1".into(),
        details: details(),
    });
    press(&mut app, '2');
    app.handle_mouse(mouse(MouseEventKind::ScrollDown, 30, 5));
    assert_eq!(app.selected_detail_index(), 1);
    app.handle_mouse(mouse(MouseEventKind::Moved, 30, 5));
    app.handle_mouse(mouse(MouseEventKind::ScrollDown, 79, 14));
    assert_eq!(app.selected_detail_index(), 1);
}

#[test]
fn mouse_waits_while_something_is_typed_or_confirmed() {
    let mut app = app_with(3);
    app.handle_key(shifted_key('D'));
    assert_eq!(said(app.handle_mouse(mouse(MouseEventKind::ScrollDown, 3, 5))).len(), 0);
    app.handle_key(key(KeyCode::Esc));
    press(&mut app, '/');
    assert_eq!(said(app.handle_mouse(mouse(MouseEventKind::ScrollDown, 3, 5))).len(), 0);
    assert_eq!(app.selected_visible_index(), Some(0));
}

#[test]
fn scrollbar_is_grabbed_and_dragged() {
    let mut app = app_with(30);
    let down = MouseEventKind::Down(MouseButton::Left);
    assert_eq!(said(app.handle_mouse(mouse(down, 18, 2))), vec!["grab Containers 2"]);
    let metrics = app.scroll_metrics(ScrollbarTarget::Containers);
    assert_eq!((metrics.content_length, metrics.viewport_length), (30, 9));
    assert_eq!(metrics.track, Rect::new(18, 2, 1, 9));
    let (top, length) = metrics.thumb_bounds(3, 0);
    let drag = said(app.begin_scrollbar_drag(ScrollbarTarget::Containers, 3, top, length));
    assert_eq!(drag, vec!["drag Containers 3 1"]);
    let moved = MouseEventKind::Drag(MouseButton::Left);
    assert_eq!(said(app.handle_mouse(mouse(moved, 50, 6))), vec!["drag Containers 6 1"]);
    app.apply_scrollbar_drag(ScrollbarTarget::Containers, length, 11);
    assert_eq!(app.container_offset, 11);
    app.apply_scrollbar_drag(ScrollbarTarget::Containers, length, 99);
    assert_eq!(app.container_offset, 21);
    assert_eq!(app.selected_visible_index(), Some(0));
    app.handle_mouse(mouse(MouseEventKind::Up(MouseButton::Left), 50, 6));
    assert!(app.scrollbar_drag.is_none());
}

#[test]
fn scrollbars_of_the_detail_pane_depend_on_the_tab() {
    let mut app = app_with(1);
    let down = MouseEventKind::Down(MouseButton::Left);
    app.apply_docker_event(chunk("container-0", &["0", "1", "2", "3", "4", "5", "6", "7"]));
    assert_eq!(said(app.handle_mouse(mouse(down, 78, 5))), vec!["grab Logs 5"]);
    app.apply_scrollbar_drag(ScrollbarTarget::Logs, 2, 1);
    assert_eq!((app.logs.scroll_top, app.logs.follow), (1, false));
    press(&mut app, '2');
    assert_eq!(said(app.handle_mouse(mouse(down, 78, 5))), vec!["grab Detail 5"]);
    app.apply_docker_event(DockerEvent::InspectLoaded {
        id: "container-0".into(),
        details: details(),
    });
    app.apply_scrollbar_drag(ScrollbarTarget::Detail, 7, 2);
    assert_eq!(app.detail_offset, 0);
}
