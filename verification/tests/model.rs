use dui::json::{JsonNumber, JsonValue};
use dui::model::{
    apply_container_filters, sort_containers, ContainerDetails, ContainerRecord, DetailItem,
    LogEntry, PortMapping, SummaryError,
};
use dui::tab::DetailTab;

fn text(value: &str) -> JsonValue {
    JsonValue::Text(value.to_string())
}

fn number(value: u64) -> JsonValue {
    JsonValue::Number(JsonNumber::Unsigned(value))
}

fn object(members: Vec<(&str, JsonValue)>) -> JsonValue {
    JsonValue::Object(members.into_iter().map(|(name, value)| (name.to_string(), value)).collect())
}

fn record(id: &str, name: &str, state: &str, status: &str, service: &str) -> ContainerRecord {
    ContainerRecord {
        id: id.into(),
        short_id: id.into(),
        name: name.into(),
        image: "img".into(),
        command: String::new(),
        state: state.into(),
        status: status.into(),
        project: Some("demo".into()),
        service: Some(service.into()),
        ports: Vec::new(),
        health: None,
        created: None,
    }
}

#[test]
fn parses_summary_json() {
    let value = object(vec![
        ("Id", text("0123456789abcdef")),
        ("Names", JsonValue::Array(vec![text("/api-1")])),
        ("Image", text("ghcr.io/example/api:latest")),
        ("Command", text("cargo run")),
        ("Created", number(1710000000)),
        ("State", text("running")),
        ("Status", text("Up 10 minutes")),
        (
            "Labels",
            object(vec![
                ("com.docker.compose.project", text("sample")),
                ("com.docker.compose.service", text("api")),
            ]),
        ),
        (
            "Ports",
            JsonValue::Array(vec![object(vec![
                ("IP", text("0.0.0.0")),
                ("PrivatePort", number(3000)),
                ("PublicPort", number(3000)),
                ("Type", text("tcp")),
            ])]),
        ),
    ]);

    let container = ContainerRecord::from_summary_value(value).expect("summary parses");
    assert_eq!(container.name, "api-1");
    assert_eq!(container.project.as_deref(), Some("sample"));
    assert_eq!(container.service.as_deref(), Some("api"));
    assert_eq!(container.ports_summary(), "0.0.0.0:3000->3000/tcp");
    assert!(container.matches_query("ghcr"));
}

#[test]
fn sorts_running_before_stopped() {
    let mut containers = vec![
        record("b", "stopped", "exited", "Exited", "worker"),
        record("a", "running", "running", "Up", "api"),
    ];

    sort_containers(&mut containers);
    assert_eq!(containers[0].name, "running");
}

#[test]
fn extracts_inspect_details() {
    let summary = ContainerRecord {
        id: "abc".into(),
        short_id: "abc".into(),
        name: "api-1".into(),
        image: "ghcr.io/example/api:latest".into(),
        command: "cargo run".into(),
        state: "running".into(),
        status: "Up 1 minute".into(),
        project: Some("demo".into()),
        service: Some("api".into()),
        ports: Vec::new(),
        health: None,
        created: None,
    };

    let inspect = object(vec![
        ("Created", text("2026-03-22T01:02:03Z")),
        (
            "Config",
            object(vec![(
                "Env",
                JsonValue::Array(vec![text("RUST_LOG=info"), text("PORT=3000")]),
            )]),
        ),
        (
            "Mounts",
            JsonValue::Array(vec![object(vec![
                ("Type", text("bind")),
                ("Source", text("/tmp/src")),
                ("Destination", text("/app")),
                ("RW", JsonValue::Bool(true)),
            ])]),
        ),
        (
            "State",
            object(vec![
                ("StartedAt", text("2026-03-22T01:03:04Z")),
                (
                    "Health",
                    object(vec![
                        ("Status", text("healthy")),
                        ("FailingStreak", number(0)),
                        (
                            "Log",
                            JsonValue::Array(vec![object(vec![
                                ("ExitCode", text("0")),
                                ("Output", text("ok")),
                            ])]),
                        ),
                    ]),
                ),
            ]),
        ),
        (
            "NetworkSettings",
            object(vec![(
                "Ports",
                object(vec![(
                    "3000/tcp",
                    JsonValue::Array(vec![object(vec![
                        ("HostIp", text("0.0.0.0")),
                        ("HostPort", text("3000")),
                    ])]),
                )]),
            )]),
        ),
    ]);

    let details = ContainerDetails::from_inspect_value(&summary, inspect);
    assert!(details.overview.iter().any(|row| row.label == "Project"));
    assert_eq!(details.env.len(), 2);
    assert_eq!(details.mounts[0].label, "/app");
    assert_eq!(details.health[0].value, "healthy");
}

#[test]
fn parses_log_timestamp_prefix() {
    let entry = LogEntry::parse(
        "stdout",
        "2026-03-22T12:00:00.123456789Z listening on http://0.0.0.0:3000\n",
    );
    assert_eq!(entry.timestamp.as_deref(), Some("2026-03-22T12:00:00.123456789Z"));
    assert_eq!(entry.message, "listening on http://0.0.0.0:3000");
}

#[test]
fn summary_has_defaults() {
    let container = ContainerRecord::from_summary_value(object(vec![])).expect("summary parses");
    assert_eq!(container.id, "unknown");
    assert_eq!(container.name, "unknown");
    assert_eq!(container.image, "<unknown>");
    assert_eq!(container.command, "");
    assert_eq!((container.state.as_str(), container.status.as_str()), ("unknown", "unknown"));
    assert_eq!((container.project, container.service, container.created), (None, None, None));
    assert!(container.ports.is_empty());
    let blank = ContainerRecord::from_summary_value(object(vec![
        ("Id", text("0123456789abcdef")),
        ("Names", JsonValue::Array(vec![text("  "), number(4), text("//web")])),
        ("Labels", object(vec![("com.docker.compose.project", text(""))])),
        ("Created", JsonValue::Number(JsonNumber::Fractional)),
    ]))
    .expect("summary parses");
    assert_eq!(blank.name, "web");
    assert_eq!(blank.short_id, "0123456789ab");
    assert_eq!((blank.project, blank.created), (None, None));
}

#[test]
fn summary_that_is_no_object_is_refused() {
    let error = ContainerRecord::from_summary_value(text("x")).err().expect("an error");
    assert_eq!(error, SummaryError::NotAnObject);
    assert_eq!(error.message(), "container summary must be a JSON object");
}

#[test]
fn containers_match_queries() {
    let mut container = record("0123", "Web-1", "running", "Up", "frontend");
    container.command = "npm start".into();
    for query in ["", "  ", "web", "WEB-1", "npm", "demo", "FRONT", "0123"] {
        assert!(container.matches_query(query), "{}", query);
    }
    for query in ["running", "web ", "x"] {
        assert!(!container.matches_query(query), "{}", query);
    }
}

#[test]
fn queries_match_in_any_case() {
    let container = record("0abc", "Web-1", "running", "Up", "frontend");
    for query in ["web-1", "0abc", "frontend", "demo", " ", "running", "webs", "web-1 "] {
        let upper = query.to_uppercase();
        assert_eq!(container.matches_query(&upper), container.matches_query(query), "{}", query);
    }
    assert!(container.matches_query("0ABC"));
}

#[test]
fn states_that_count_as_running() {
    for (state, running) in [
        ("running", true),
        ("restarting", true),
        ("paused", true),
        ("created", true),
        ("exited", false),
        ("dead", false),
        ("Running", false),
    ] {
        assert_eq!(record("a", "a", state, "", "x").is_running(), running, "{}", state);
    }
}

#[test]
fn ports_are_shown() {
    let port = |ip: Option<&str>, private, public, typ: Option<&str>| PortMapping {
        ip: ip.map(String::from),
        private_port: private,
        public_port: public,
        typ: typ.map(String::from),
    };
    assert_eq!(port(Some(""), Some(80), Some(8080), None).display(), "0.0.0.0:8080->80/tcp");
    assert_eq!(port(Some("::"), Some(53), Some(53), Some("udp")).display(), ":::53->53/udp");
    assert_eq!(port(None, Some(80), None, Some("udp")).display(), "80/udp");
    assert_eq!(port(None, None, Some(80), None).display(), "-");
    let mut container = record("a", "a", "running", "Up", "x");
    assert_eq!(container.ports_summary(), "-");
    container.ports = vec![port(None, Some(1), None, None), port(None, Some(2), None, None)];
    assert_eq!(container.ports_summary(), "1/tcp, 2/tcp");
    assert_eq!(container.health_label(), "-");
    container.health = Some("healthy".into());
    assert_eq!(container.health_label(), "healthy");
}

#[test]
fn containers_are_sorted_by_state_project_service_and_name() {
    let mut a = record("1", "z", "running", "Up", "api");
    a.project = None;
    let b = record("2", "b", "running", "Up", "api");
    let c = record("3", "a", "running", "Up", "db");
    let d = record("4", "a", "exited", "Exited", "api");
    let mut twin = record("5", "b", "running", "Up", "api");
    twin.image = "other".into();
    let mut containers = vec![d, c, b, twin, a];
    sort_containers(&mut containers);
    let ids: Vec<&str> = containers.iter().map(|c| c.id.as_str()).collect();
    assert_eq!(ids, vec!["1", "2", "5", "3", "4"]);
}

#[test]
fn containers_are_filtered() {
    let containers = vec![
        record("1", "web", "running", "Up", "web"),
        record("2", "db", "exited", "Exited", "db"),
    ];
    let ids = |found: Vec<&ContainerRecord>| {
        found.iter().map(|c| c.id.clone()).collect::<Vec<String>>()
    };
    assert_eq!(ids(apply_container_filters(&containers, false, None, None)), vec!["1"]);
    assert_eq!(ids(apply_container_filters(&containers, true, None, None)), vec!["1", "2"]);
    assert_eq!(
        ids(apply_container_filters(&containers, true, Some("demo"), Some("db"))),
        vec!["2"]
    );
    assert!(apply_container_filters(&containers, true, Some("other"), None).is_empty());
}

#[test]
fn inspection_without_data_has_placeholders() {
    let summary = record("abc", "api", "running", "Up", "api");
    let details = ContainerDetails::from_inspect_value(&summary, object(vec![]));
    let labels: Vec<&str> = details.overview.iter().map(|row| row.label.as_str()).collect();
    assert_eq!(labels, vec!["Name", "ID", "Image", "State", "Status", "Project", "Service"]);
    assert!(details.env.is_empty());
    assert_eq!(details.ports[0].value, "No published ports");
    assert_eq!(details.mounts[0].value, "No mounts");
    assert_eq!(details.health[0].value, "No health check");
    let none = ContainerDetails::from_inspect_value(&summary, JsonValue::Null);
    assert!(none.overview.is_empty() && none.ports.is_empty());
    assert_eq!(none, ContainerDetails::default());
}

#[test]
fn inspected_ports_stand_in_order() {
    let summary = record("abc", "api", "running", "Up", "api");
    let binding = object(vec![("HostPort", text("8080"))]);
    let details = ContainerDetails::from_inspect_value(
        &summary,
        object(vec![(
            "NetworkSettings",
            object(vec![(
                "Ports",
                object(vec![
                    ("9000/tcp", JsonValue::Null),
                    ("80/tcp", JsonValue::Array(vec![binding, object(vec![])])),
                    ("443/tcp", JsonValue::Array(vec![])),
                ]),
            )]),
        )]),
    );
    let rows: Vec<(&str, &str)> =
        details.ports.iter().map(|row| (row.label.as_str(), row.value.as_str())).collect();
    assert_eq!(
        rows,
        vec![
            ("443/tcp", "not published"),
            ("80/tcp", "0.0.0.0:8080, 0.0.0.0:?"),
            ("9000/tcp", "not published"),
        ]
    );
}

#[test]
fn health_shows_the_last_three_checks() {
    let summary = record("abc", "api", "running", "Up", "api");
    let check = |output: &str| object(vec![("Output", text(output))]);
    let details = ContainerDetails::from_inspect_value(
        &summary,
        object(vec![(
            "State",
            object(vec![(
                "Health",
                object(vec![
                    ("Status", text("unhealthy")),
                    ("FailingStreak", number(7)),
                    (
                        "Log",
                        JsonValue::Array(vec![check("1"), check("2"), check(" 3\n"), check("4")]),
                    ),
                ]),
            )]),
        )]),
    );
    let rows: Vec<(&str, &str)> =
        details.health.iter().map(|row| (row.label.as_str(), row.value.as_str())).collect();
    assert_eq!(
        rows,
        vec![
            ("Status", "unhealthy"),
            ("Failing streak", "7"),
            ("Log exit", "2"),
            ("Log exit", "3"),
            ("Log exit", "4"),
        ]
    );
}

#[test]
fn mounts_and_env_are_shown() {
    let summary = record("abc", "api", "running", "Up", "api");
    let details = ContainerDetails::from_inspect_value(
        &summary,
        object(vec![
            (
                "Config",
                object(vec![(
                    "Env",
                    JsonValue::Array(vec![text("A=b=c"), text("FLAG"), number(1)]),
                )]),
            ),
            (
                "Mounts",
                JsonValue::Array(vec![object(vec![("RW", JsonValue::Bool(false))]), object(vec![])]),
            ),
        ]),
    );
    let rows = |items: &[DetailItem]| {
        items.iter().map(|row| format!("{} | {}", row.label, row.value)).collect::<Vec<_>>()
    };
    assert_eq!(rows(&details.env), vec!["A | b=c", "FLAG | "]);
    assert_eq!(
        rows(&details.mounts),
        vec!["? | mount <anonymous> (ro)", "? | mount <anonymous> (?)"]
    );
    assert_eq!(rows(details.items_for_tab(DetailTab::Env)), rows(&details.env));
    assert_eq!(rows(details.items_for_tab(DetailTab::Logs)), rows(&details.overview));
}

#[test]
fn log_lines_without_a_timestamp_stand_as_they_are() {
    for raw in [
        "plain",
        "2026-03-22 12:00:00 hello",
        "2026-03-22T12:00:00Z",
        "2026-3-22T12:00:00Z hello",
        " 2026-03-22T12:00:00Z hello",
        "2026-03-22T hello",
    ] {
        let entry = LogEntry::parse("stdout", raw);
        assert_eq!(entry.timestamp, None, "{}", raw);
        assert_eq!(entry.message, raw);
    }
    let tabbed = LogEntry::parse("stdout", "2026-03-22T12:00:00Z\t\u{1b}[31mred\u{1b}[0m\n\n");
    assert_eq!(tabbed.timestamp.as_deref(), Some("2026-03-22T12:00:00Z"));
    assert_eq!(tabbed.plain_message, "red");
    assert_eq!(tabbed.display(true), "2026-03-22T12:00:00Z red");
    assert_eq!(tabbed.display(false), "red");
    assert_eq!(tabbed.display_raw(true), "2026-03-22T12:00:00Z \u{1b}[31mred\u{1b}[0m");
    assert_eq!(tabbed.display_raw(false), "\u{1b}[31mred\u{1b}[0m");
}

#[test]
fn log_line_is_made_from_its_groups() {
    let groups = Some(("then".to_string(), "\u{1b}[1mhello".to_string()));
    let entry = LogEntry::from_groups("stderr", "whole line", groups);
    assert_eq!((entry.timestamp.as_deref(), entry.plain_message.as_str()), (Some("then"), "hello"));
    let plain = LogEntry::from_groups("stderr", "whole line", None);
    assert_eq!((plain.timestamp, plain.message.as_str()), (None, "whole line"));
}

#[test]
fn stamped_line_is_shown_as_it_came() {
    let line = "2026-03-22T12:00:00Z \u{1b}[1mhello\u{1b}[0m  world";
    assert_eq!(LogEntry::parse("stdout", line).display_raw(true), line);
    assert_eq!(LogEntry::parse("stdout", "just text").display_raw(false), "just text");
}
