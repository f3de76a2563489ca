use dui::docker::{
    call_succeeded, command_failed, connected, engine_call, engine_notice, events_disconnected,
    inspect_says_running, parse_details, parse_summaries, ContainerAction, DetailsError,
    DockerCommand, DockerEvent, EngineCall, EngineNotice, LogWatcher, NoticeStep, WatchAction,
    WatchEvent, WatchPhase,
};
use dui::json::JsonValue;
use dui::model::{LogEntry, SummaryError};
use dui::stream::{
    current_unix_seconds, log_signature, log_since_marker, marker_of, parse_log_output,
    seconds_within, split_log_lines, LogOutput, LogReplayGate,
};

fn stdout(text: &str) -> LogOutput {
    LogOutput::StdOut { message: text.as_bytes().to_vec() }
}

fn summary(id: &str, name: &str) -> JsonValue {
    JsonValue::Object(vec![
        ("Id".to_string(), JsonValue::Text(id.to_string())),
        ("Names".to_string(), JsonValue::Array(vec![JsonValue::Text(name.to_string())])),
    ])
}

fn messages(entries: &[LogEntry]) -> Vec<&str> {
    entries.iter().map(|entry| entry.message.as_str()).collect()
}

#[test]
fn replay_gate_skips_replayed_entries_for_last_timestamp() {
    let mut gate = LogReplayGate::default();
    let first = LogEntry::parse("stdout", "2026-03-22T10:00:00.100000000Z first\n");
    let second = LogEntry::parse("stdout", "2026-03-22T10:00:00.200000000Z second\n");
    gate.remember(&first);
    gate.remember(&second);

    assert!(!gate.accepts(&first));
    assert!(!gate.accepts(&second));
}

#[test]
fn replay_gate_accepts_newer_entries() {
    let mut gate = LogReplayGate::default();
    let first = LogEntry::parse("stdout", "2026-03-22T10:00:00.200000000Z second\n");
    let newer = LogEntry::parse("stdout", "2026-03-22T10:00:01.000000000Z third\n");
    gate.remember(&first);

    assert!(gate.accepts(&newer));
}

#[test]
fn replay_gate_accepts_a_line_once() {
    let mut gate = LogReplayGate::default();
    let stamped = LogEntry::parse("stdout", "2026-03-22T10:00:00Z one\n");
    let other = LogEntry::parse("stderr", "2026-03-22T10:00:00Z one\n");
    let plain = LogEntry::parse("stdout", "plain\n");
    assert!(gate.accepts(&stamped));
    assert!(!gate.accepts(&stamped));
    assert!(gate.accepts(&other));
    assert_eq!(gate.seen_at_last_timestamp.len(), 2);
    assert!(gate.accepts(&plain));
    assert!(!gate.accepts(&plain));
}

#[test]
fn replay_gate_holds_a_signature_once() {
    let mut gate = LogReplayGate::default();
    let line = LogEntry::parse("stdout", "2026-03-22T10:00:00Z one\n");
    gate.remember(&line);
    gate.remember(&line);
    assert_eq!(gate.seen_at_last_timestamp.len(), 1);
    gate.remember(&LogEntry::parse("stdout", "2026-03-22T10:00:09Z two\n"));
    assert_eq!(gate.seen_at_last_timestamp.len(), 1);
}

#[test]
fn signature_holds_stream_timestamp_and_message() {
    let entry = LogEntry::parse("stderr", "2026-03-22T10:00:00Z hello\n");
    assert_eq!(log_signature(&entry), "stderr|2026-03-22T10:00:00Z|hello");
    assert_eq!(log_signature(&LogEntry::parse("stdin", "x")), "stdin||x");
}

#[test]
fn output_is_read_line_by_line() {
    let entries = parse_log_output(LogOutput::StdErr { message: b"one\ntwo\n\nthree".to_vec() });
    assert_eq!(messages(&entries), vec!["one", "two", "", "three"]);
    assert!(entries.iter().all(|entry| entry.stream == "stderr"));
    assert_eq!(parse_log_output(LogOutput::StdIn { message: b"x".to_vec() })[0].stream, "stdin");
    let console = parse_log_output(LogOutput::Console { message: b"x".to_vec() });
    assert_eq!(console[0].stream, "console");
    assert_eq!(split_log_lines("stdout", "").len(), 0);
}

#[test]
fn output_that_is_no_text_is_replaced() {
    let entries = parse_log_output(LogOutput::StdOut { message: vec![b'a', 0xff, b'b'] });
    assert_eq!(messages(&entries), vec!["a\u{fffd}b"]);
    let text = parse_log_output(LogOutput::StdOut { message: "gr\u{fc}n".as_bytes().to_vec() });
    assert_eq!(messages(&text), vec!["gr\u{fc}n"]);
}

#[test]
fn moments_are_read_from_timestamps() {
    let entry = LogEntry::parse("stdout", "2026-03-22T10:00:00.5Z hello\n");
    assert_eq!(log_since_marker(&entry), Some(1774173600));
    let offset = LogEntry::parse("stdout", "2026-03-22T10:00:00+01:00 hello\n");
    assert_eq!(log_since_marker(&offset), Some(1774170000));
    assert_eq!(log_since_marker(&LogEntry::parse("stdout", "2026-99-22Tx hello\n")), None);
    assert_eq!(log_since_marker(&LogEntry::parse("stdout", "hello\n")), None);
    assert_eq!(log_since_marker(&LogEntry::parse("stdout", "9999-03-22T10:00:00Z x\n")), None);
}

#[test]
fn seconds_are_kept_within_limits() {
    assert_eq!(seconds_within(7), Some(7));
    assert_eq!(seconds_within(i32::MAX as i64 + 1), None);
    assert_eq!(seconds_within(i32::MIN as i64 - 1), None);
    assert_eq!(marker_of(-3), -3);
    assert_eq!(marker_of(i64::MAX), i32::MAX);
    assert_eq!(marker_of(i64::MIN), i32::MAX);
    assert!(current_unix_seconds() > 1_700_000_000);
}

#[test]
fn notices_of_the_engine_are_followed_up() {
    assert!(matches!(
        engine_notice(EngineNotice::Happened),
        NoticeStep::Ask(DockerCommand::RefreshContainers)
    ));
    assert!(matches!(
        engine_notice(EngineNotice::Ended),
        NoticeStep::Reopen { report: None, millis: 2000 }
    ));
    match engine_notice(EngineNotice::Failed("eof".to_string())) {
        NoticeStep::Reopen { report: Some(DockerEvent::OperationFailed(text)), millis } => {
            assert_eq!(text, "Docker event stream disconnected: eof");
            assert_eq!(millis, 2000);
        }
        step => panic!("{step:?}"),
    }
}

#[test]
fn watcher_reads_the_backlog() {
    let mut watcher = LogWatcher::new("abc".to_string(), 5);
    assert!(matches!(watcher.opening(), DockerEvent::LogsReset { id } if id == "abc"));
    watcher.read_backlog(stdout("2026-03-22T10:00:00Z one\nplain\n"));
    watcher.read_backlog(stdout("2026-03-22T10:00:07Z two\n"));
    assert_eq!(watcher.since, 1774173607);
    let events = watcher.finish_backlog();
    assert_eq!(events.len(), 2);
    match &events[0] {
        DockerEvent::LogChunk { id, entries } => {
            assert_eq!(id, "abc");
            assert_eq!(messages(entries), vec!["one", "plain", "two"]);
        }
        other => panic!("unexpected event {:?}", other),
    }
    assert!(matches!(&events[1], DockerEvent::LogsReady { id } if id == "abc"));
}

#[test]
fn watcher_with_an_empty_backlog_is_ready_at_once() {
    let mut watcher = LogWatcher::new("abc".to_string(), 5);
    watcher.read_backlog(stdout(""));
    let events = watcher.finish_backlog();
    assert_eq!(events.len(), 1);
    assert!(matches!(&events[0], DockerEvent::LogsReady { .. }));
    assert_eq!(watcher.open_stream(), 5);
    assert!(!watcher.reopens());
}

#[test]
fn watcher_shows_only_new_lines() {
    let mut watcher = LogWatcher::new("abc".to_string(), 5);
    watcher.read_backlog(stdout("2026-03-22T10:00:00Z one\n2026-03-22T10:00:01Z two\n"));
    watcher.finish_backlog();
    assert_eq!(watcher.open_stream(), 1774173601);
    assert!(watcher
        .read_stream(stdout("2026-03-22T10:00:00Z one\n2026-03-22T10:00:01Z two\n"))
        .is_none());
    assert!(!watcher.reopens());
    match watcher.read_stream(stdout("2026-03-22T10:00:01Z two\n2026-03-22T10:00:02Z three\n")) {
        Some(DockerEvent::LogChunk { id, entries }) => {
            assert_eq!(id, "abc");
            assert_eq!(messages(&entries), vec!["three"]);
        }
        other => panic!("unexpected event {:?}", other),
    }
    assert!(watcher.reopens());
    assert_eq!(watcher.open_stream(), 1774173602);
    assert!(!watcher.reopens());
    match watcher.stream_dropped("gone") {
        DockerEvent::OperationFailed(text) => {
            assert_eq!(text, "Log stream dropped for abc: gone")
        }
        other => panic!("unexpected event {:?}", other),
    }
}

fn told(actions: Vec<WatchAction>) -> Vec<String> {
    actions
        .into_iter()
        .map(|action| match action {
            WatchAction::Send(DockerEvent::LogsReset { id }) => format!("reset {id}"),
            WatchAction::Send(DockerEvent::LogsReady { id }) => format!("ready {id}"),
            WatchAction::Send(DockerEvent::LogChunk { id, entries }) => {
                format!("lines {id} {}", messages(&entries).join(","))
            }
            WatchAction::Send(DockerEvent::OperationFailed(text)) => format!("failed {text}"),
            WatchAction::ReadBacklog => "backlog".to_string(),
            WatchAction::Follow { since } => format!("follow {since}"),
            WatchAction::Rest { millis } => format!("rest {millis}"),
            WatchAction::Stop => "stop".to_string(),
            other => panic!("unexpected action {:?}", other),
        })
        .collect()
}

#[test]
fn watch_goes_through_its_phases() {
    let mut watcher = LogWatcher::new("abc".to_string(), 5);
    assert_eq!(told(watcher.step(WatchEvent::Ended)), Vec::<String>::new());
    assert_eq!(told(watcher.step(WatchEvent::Begin)), vec!["reset abc", "backlog"]);
    let piece = || WatchEvent::Output(stdout("2026-03-22T10:00:00Z one\n"));
    assert_eq!(told(watcher.step(piece())).len(), 0);
    assert_eq!(
        told(watcher.step(WatchEvent::Ended)),
        vec!["lines abc one", "ready abc", "follow 1774173600"]
    );
    assert_eq!(told(watcher.step(piece())).len(), 0);
    let newer = WatchEvent::Output(stdout("2026-03-22T10:00:03Z two\n"));
    assert_eq!(told(watcher.step(newer)), vec!["lines abc two"]);
    assert_eq!(told(watcher.step(WatchEvent::Ended)), vec!["rest 500"]);
    assert_eq!(watcher.phase, WatchPhase::Resting);
    assert_eq!(told(watcher.step(WatchEvent::Rested)), vec!["follow 1774173603"]);
    assert_eq!(
        told(watcher.step(WatchEvent::Failed("gone".to_string()))),
        vec!["failed Log stream dropped for abc: gone", "stop"]
    );
    assert_eq!(watcher.phase, WatchPhase::Done);
    assert_eq!(told(watcher.step(WatchEvent::Begin)).len(), 0);
}

#[test]
fn dropped_stream_is_opened_anew_after_it_brought_something() {
    let mut watcher = LogWatcher::new("abc".to_string(), 5);
    watcher.step(WatchEvent::Begin);
    assert_eq!(told(watcher.step(WatchEvent::Ended)), vec!["ready abc", "follow 5"]);
    watcher.step(WatchEvent::Output(stdout("plain\n")));
    assert_eq!(
        told(watcher.step(WatchEvent::Failed("gone".to_string()))),
        vec!["failed Log stream dropped for abc: gone", "rest 500"]
    );
    assert_eq!(told(watcher.step(WatchEvent::Rested)), vec!["follow 5"]);
    assert_eq!(told(watcher.step(WatchEvent::Ended)), vec!["stop"]);
}

#[test]
fn failed_backlog_ends_the_watch() {
    let mut watcher = LogWatcher::new("abc".to_string(), 5);
    watcher.step(WatchEvent::Begin);
    assert_eq!(
        told(watcher.step(WatchEvent::Failed("no".to_string()))),
        vec!["failed Backlog fetch failed for abc: no", "stop"]
    );
    assert_eq!(told(watcher.step(WatchEvent::Ended)).len(), 0);
}

#[test]
fn summaries_are_read_or_refused_together() {
    let records = parse_summaries(vec![summary("1", "/a"), summary("2", "/b")]).expect("records");
    assert_eq!(records.iter().map(|r| r.name.as_str()).collect::<Vec<_>>(), vec!["a", "b"]);
    let refused = parse_summaries(vec![summary("1", "/a"), JsonValue::Null]);
    assert_eq!(refused.err(), Some(SummaryError::NotAnObject));
    assert_eq!(SummaryError::NotAnObject.message(), "container summary must be a JSON object");
}

#[test]
fn details_need_the_summary_of_the_container() {
    let inspect = || {
        JsonValue::Object(vec![(
            "Config".to_string(),
            JsonValue::Object(vec![(
                "Env".to_string(),
                JsonValue::Array(vec![JsonValue::Text("A=b".to_string())]),
            )]),
        )])
    };
    let details = parse_details("2", vec![summary("1", "/a"), summary("2", "/b")], inspect())
        .expect("details");
    assert_eq!(details.env.len(), 1);
    assert!(details.overview.iter().any(|row| row.value == "b"));
    let gone = parse_details("3", vec![summary("1", "/a")], inspect());
    assert_eq!(gone.err(), Some(DetailsError::Gone));
    let spoiled = parse_details("1", vec![JsonValue::Bool(true)], inspect());
    assert_eq!(spoiled.err(), Some(DetailsError::Summary(SummaryError::NotAnObject)));
    assert_eq!(DetailsError::Gone.message(), "container no longer available");
}

#[test]
fn actions_become_engine_calls() {
    assert_eq!(
        engine_call(ContainerAction::StartStop, true),
        EngineCall::Stop { timeout: 10 }
    );
    assert_eq!(engine_call(ContainerAction::StartStop, false), EngineCall::Start);
    assert_eq!(
        engine_call(ContainerAction::Restart, false),
        EngineCall::Restart { timeout: 10 }
    );
    assert_eq!(engine_call(ContainerAction::Remove, true), EngineCall::Remove { force: true });
}

#[test]
fn running_is_read_from_the_inspection() {
    let state = |value: JsonValue| {
        JsonValue::Object(vec![(
            "State".to_string(),
            JsonValue::Object(vec![("Running".to_string(), value)]),
        )])
    };
    assert!(inspect_says_running(&state(JsonValue::Bool(true))));
    assert!(!inspect_says_running(&state(JsonValue::Bool(false))));
    assert!(!inspect_says_running(&state(JsonValue::Text("true".to_string()))));
    assert!(!inspect_says_running(&JsonValue::Null));
    assert!(!inspect_says_running(&JsonValue::Object(Vec::new())));
}

#[test]
fn events_say_what_happened() {
    let text = |event: DockerEvent| match event {
        DockerEvent::Connected(text)
        | DockerEvent::OperationSucceeded(text)
        | DockerEvent::OperationFailed(text) => text,
        other => panic!("unexpected event {:?}", other),
    };
    assert_eq!(text(connected(Some(Some("27.1".to_string())))), "Connected to 27.1");
    assert_eq!(text(connected(Some(None))), "Connected to unknown Docker version");
    assert_eq!(text(connected(None)), "Connected to Docker connected");
    assert_eq!(text(call_succeeded(EngineCall::Start, "x")), "Started x");
    assert_eq!(text(call_succeeded(EngineCall::Stop { timeout: 10 }, "x")), "Stopped x");
    assert_eq!(text(call_succeeded(EngineCall::Restart { timeout: 10 }, "x")), "Restarted x");
    assert_eq!(text(call_succeeded(EngineCall::Remove { force: true }, "x")), "Removed x");
    let refresh = DockerCommand::RefreshContainers;
    assert_eq!(text(command_failed(&refresh, "e")), "Refresh failed: e");
    let inspect = DockerCommand::LoadInspect { id: "x".to_string() };
    assert_eq!(text(command_failed(&inspect, "e")), "Inspect failed: e");
    let watch = DockerCommand::WatchLogs { id: "x".to_string() };
    assert_eq!(text(command_failed(&watch, "e")), "Backlog fetch failed for x: e");
    let act = DockerCommand::Action { id: "x".to_string(), action: ContainerAction::Restart };
    assert_eq!(text(command_failed(&act, "e")), "Action failed for x: e");
    assert_eq!(text(events_disconnected("e")), "Docker event stream disconnected: e");
}
