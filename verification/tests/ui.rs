use dui::ansi::Color;
use dui::config::{KeymapConfig, RuntimeConfig, ThemeName};
use dui::docker::DockerEvent;
use dui::keys::{KeyCode, KeyEvent, KeyModifiers};
use dui::logs::LogView;
use dui::model::{ContainerDetails, ContainerRecord, DetailItem, LogEntry, LogFilterMode};
use dui::state::App;
use dui::tab::DetailTab;
use dui::ui::{
    container_cells, container_headings, container_table, copied_message, copy_error,
    copy_failed_message, copy_failure, copy_methods, detail_panel, highlight_search, log_notes,
    log_panel, log_panel_of, log_placeholder, log_subtitle, marked_row, osc52_frame,
    osc52_sequence, padded_label, row_emphasis, scrollbar_rows, status_line, theme, CopyMethod,
    Emphasis, RowText,
};

fn logs(lines: &[&str]) -> LogView {
    let mut logs = LogView::new(true, 100);
    logs.append(lines.iter().map(|line| LogEntry::parse("stdout", line)).collect());
    logs
}

fn record(id: &str) -> ContainerRecord {
    ContainerRecord {
        id: id.into(),
        short_id: id.into(),
        name: format!("name-{id}"),
        image: "img".into(),
        command: String::new(),
        state: "running".into(),
        status: "Up".into(),
        project: None,
        service: Some("svc".into()),
        ports: Vec::new(),
        health: None,
        created: None,
    }
}

fn app() -> App {
    let runtime = RuntimeConfig {
        theme: ThemeName::Graphite,
        show_stopped_by_default: false,
        log_backlog_lines: 400,
        show_timestamps: true,
        keymap: KeymapConfig::default(),
        docker_host: None,
        project_filter: None,
        startup_container_query: None,
    };
    let mut app = App::new(runtime, None);
    app.apply_docker_event(DockerEvent::ContainersUpdated(vec![record("a"), record("b")]));
    app
}

fn marked(a: &str, b: &str, c: &str) -> RowText {
    RowText::Marked(a.to_string(), b.to_string(), c.to_string())
}

fn labels(methods: &[CopyMethod]) -> Vec<String> {
    methods
        .iter()
        .map(|method| match method {
            CopyMethod::Command(backend) => {
                format!("{} {}", backend.program, backend.args.join(" "))
            }
            CopyMethod::Desktop => "desktop".to_string(),
            CopyMethod::Terminal => "terminal".to_string(),
        })
        .collect()
}

#[test]
fn clipboard_methods_depend_on_the_desktop() {
    assert_eq!(
        labels(&copy_methods(true, true, true)),
        vec![
            "wl-copy ",
            "xclip -selection clipboard",
            "xsel --clipboard --input",
            "pbcopy ",
            "desktop",
            "terminal"
        ]
    );
    assert_eq!(labels(&copy_methods(false, false, false)), vec!["desktop", "terminal"]);
}

#[test]
fn clipboard_errors_are_gathered() {
    let methods = copy_methods(true, false, false);
    let errors: Vec<String> = methods.iter().map(|method| copy_error(method, "no")).collect();
    assert_eq!(errors, vec!["wl-copy: no", "arboard: no", "osc52: no"]);
    assert_eq!(copy_failure(&errors), "wl-copy: no; arboard: no; osc52: no");
    assert_eq!(copied_message("gr\u{fc}n"), "Copied 5 bytes to the clipboard");
    assert_eq!(copy_failed_message("x"), "Clipboard copy failed: x");
}

#[test]
fn terminal_sequence_is_encoded_and_wrapped() {
    assert_eq!(osc52_sequence("hello", false, &None), "\u{1b}]52;c;aGVsbG8=\u{7}");
    assert_eq!(
        osc52_sequence("hello", true, &Some("screen".to_string())),
        "\u{1b}Ptmux;\u{1b}\u{1b}]52;c;aGVsbG8=\u{7}\u{1b}\\"
    );
    assert_eq!(
        osc52_frame("AA==", false, &Some("screen-256color".to_string())),
        "\u{1b}P\u{1b}]52;c;AA==\u{7}\u{1b}\\"
    );
    assert_eq!(
        osc52_frame("AA==", false, &Some("xterm".to_string())),
        "\u{1b}]52;c;AA==\u{7}"
    );
}

#[test]
fn container_rows_have_a_cell_for_each_heading() {
    let cells = container_cells(&record("a"));
    assert_eq!(cells, vec!["running", "name-a", "-", "svc", "img", "-", "Up"]);
    assert_eq!(cells.len(), container_headings().len());
    let table = container_table(&app());
    assert_eq!(table.len(), 2);
    assert_eq!(table[1][1], "name-b");
}

#[test]
fn detail_rows_are_padded() {
    assert_eq!(padded_label("Name"), "Name              ");
    assert_eq!(padded_label("a label that is rather long"), "a label that is rather long");
    let mut app = app();
    app.detail_tab = DetailTab::Overview;
    assert_eq!(detail_panel(&app), vec![("No data loaded".to_string(), String::new())]);
    app.details = Some(ContainerDetails {
        overview: vec![DetailItem { label: "Image".into(), value: "img".into() }],
        env: Vec::new(),
        ports: Vec::new(),
        mounts: Vec::new(),
        health: Vec::new(),
    });
    assert_eq!(
        detail_panel(&app),
        vec![("Image             ".to_string(), "img".to_string())]
    );
    assert_eq!(marked_row(5, 3), 2);
    assert_eq!(marked_row(1, 3), 1);
    assert_eq!(marked_row(5, 0), 0);
}

#[test]
fn rows_stand_out() {
    let mut logs = logs(&["a", "b", "c", "d"]);
    assert_eq!(row_emphasis(&logs, 3), Emphasis::Selected);
    assert_eq!(row_emphasis(&logs, 2), Emphasis::Plain);
    logs.start_mouse_selection(2, 10);
    logs.update_mouse_selection(1, 10);
    assert_eq!(row_emphasis(&logs, 1), Emphasis::Range);
    assert_eq!(row_emphasis(&logs, 2), Emphasis::Range);
    assert_eq!(row_emphasis(&logs, 3), Emphasis::Plain);
}

#[test]
fn searched_text_is_marked() {
    assert_eq!(
        highlight_search("one Two two".to_string(), "TWO"),
        marked("one ", "Two", " two")
    );
    assert_eq!(
        highlight_search("gr\u{fc}n Gr\u{fc}n".to_string(), "N"),
        marked("gr\u{fc}", "n", " Gr\u{fc}n")
    );
    assert_eq!(
        highlight_search("one".to_string(), "x"),
        RowText::Plain("one".to_string())
    );
    assert_eq!(
        highlight_search("one  two".to_string(), "  "),
        RowText::Plain("one  two".to_string())
    );
}

#[test]
fn log_panel_shows_rows_or_a_placeholder() {
    let mut app = app();
    let waiting = log_panel(&app);
    assert_eq!(waiting.len(), 1);
    assert_eq!(waiting[0].text, RowText::Plain("Loading logs...".to_string()));
    app.logs.finish_loading();
    assert_eq!(log_placeholder(&app.logs), "No log lines");
    app.logs.append(vec![LogEntry::parse("stdout", "one"), LogEntry::parse("stdout", "two")]);
    app.logs.set_search_query("w".to_string());
    let rows = log_panel_of(&app.logs, app.logs.visible_rows(5, 20));
    assert_eq!(rows.len(), 2);
    assert_eq!(rows[0].text, RowText::Plain("one".to_string()));
    assert_eq!((rows[0].emphasis, rows[1].emphasis), (Emphasis::Plain, Emphasis::Selected));
    assert_eq!(rows[1].text, marked("t", "w", "o"));
}

#[test]
fn notes_tell_the_state_of_the_log() {
    let mut logs = logs(&["a", "b"]);
    assert_eq!(
        log_subtitle(&logs),
        "follow:on  wrap:off  timestamps:on  filter:<none> (substring)  search:<none>  \
         selected:1 line"
    );
    logs.toggle_filter_mode();
    logs.set_filter_query("a|b".to_string());
    logs.set_search_query("b".to_string());
    logs.start_mouse_selection(0, 5);
    logs.update_mouse_selection(1, 5);
    assert_eq!(
        log_subtitle(&logs),
        "follow:off  wrap:off  timestamps:on  filter:a|b (regex)  search:b  selected:2 lines"
    );
    logs.set_filter_query("(".to_string());
    assert!(log_subtitle(&logs).starts_with("filter error: regex parse error"));
    assert_eq!(log_notes(&logs, Some("x".to_string())), "filter error: x");
    assert_eq!(logs.filter_mode, LogFilterMode::Regex);
}

#[test]
fn status_line_shows_what_is_typed() {
    let mut app = app();
    let key = |c: char| KeyEvent {
        code: KeyCode::Char(c),
        modifiers: KeyModifiers { control: false, alt: false, shift: false },
    };
    app.set_status("ready".to_string());
    assert_eq!(status_line(&app), "ready");
    app.handle_key(key('/'));
    app.handle_key(key('x'));
    assert_eq!(status_line(&app), "Search: x");
    app.input = None;
    app.handle_key(key('f'));
    assert_eq!(status_line(&app), "Filter: ");
}

#[test]
fn scrollbar_has_a_thumb() {
    assert_eq!(scrollbar_rows(5, 1, 2), vec![false, true, true, false, false]);
    assert_eq!(scrollbar_rows(0, 0, 0), vec![]);
}

#[test]
fn themes_have_their_colours() {
    assert_eq!(theme(ThemeName::Graphite).accent, Color::Rgb(240, 113, 82));
    assert_eq!(theme(ThemeName::Ember).background, Color::Rgb(26, 18, 15));
    assert_eq!(theme(ThemeName::Ocean).selection_alt, Color::Rgb(23, 58, 72));
}
