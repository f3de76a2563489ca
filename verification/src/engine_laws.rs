//! Laws of the engine: what is asked of it, what is made of its answers, and what the settings
//! come to.

use crate::app::started;
use crate::cli::Cli;
use crate::config::{theme_named, AppConfig, RuntimeConfig, ThemeName};
use crate::docker::{
    call_succeeded, command_failed, connected, engine_call, inspect_says_running, parse_details,
    parse_summaries, passed, record_models, since_after, summary_records, ActionModel,
    ContainerAction, DetailsError, DockerCommand, DockerEvent, EngineCall, EventModel,
    RequestModel, WatchEvent, WatchPhase, WatcherModel,
};
use crate::json::{JsonValue, Members};
use crate::layout::Sections;
use crate::model::{
    entry_from, entry_of, without_feeds, ContainerDetails, ContainerRecord, EntryModel, LogEntry,
    LogFilterMode, RecordModel, SummaryError,
};
use crate::model_laws::{has_member, lacks, members_are_found};
use crate::state::{is_named, AppModel, Focus, UiModel};
use crate::stream::{
    entries_of, log_since_marker, marker_of, output_entries, rfc3339_seconds, since_marker,
    GateModel, LogOutput,
};
use crate::tab::DetailTab;
use crate::text::{decimal, line_parts, text_of, text_order_is_total};
use crate::text_laws::{beginning_is_splitting, splits_round};
use vstd::prelude::*;

verus! {

// ---------------------------------------------------------------------------------------------
// Actions
// ---------------------------------------------------------------------------------------------

/// A running container is stopped and a stopped one is started; a restart restarts and a removal
/// removes, running containers too. Ten seconds are given to stop.
pub proof fn actions_come_to_calls(action: ContainerAction, running: bool, call: EngineCall)
    requires
        call_ensures(engine_call, (action, running), call),
    ensures
        action == ContainerAction::StartStop && running ==> call == (EngineCall::Stop {
            timeout: 10,
        }),
        action == ContainerAction::StartStop && !running ==> call == EngineCall::Start,
        action == ContainerAction::Restart ==> call == (EngineCall::Restart { timeout: 10 }),
        action == ContainerAction::Remove ==> call == (EngineCall::Remove { force: true }),
{
}

/// What succeeded is said with the container that it was done to.
pub proof fn success_is_told(call: EngineCall, id: &str, event: DockerEvent)
    requires
        call_ensures(call_succeeded, (call, id), event),
    ensures
        event@ == EventModel::OperationSucceeded(
            (if call == EngineCall::Start {
                "Started "@
            } else if call is Stop {
                "Stopped "@
            } else if call is Restart {
                "Restarted "@
            } else {
                "Removed "@
            }) + id@,
        ),
{
}

/// What failed is said with the error, and with the container where there is one.
pub proof fn failure_is_told(command: DockerCommand, error: &str, event: DockerEvent)
    requires
        call_ensures(command_failed, (&command, error), event),
    ensures
        command is RefreshContainers ==> event@ == EventModel::OperationFailed(
            "Refresh failed: "@ + error@,
        ),
        command is LoadInspect ==> event@ == EventModel::OperationFailed(
            "Inspect failed: "@ + error@,
        ),
        command matches DockerCommand::WatchLogs { id } ==> event@ == EventModel::OperationFailed(
            "Backlog fetch failed for "@ + id@ + ": "@ + error@,
        ),
        command matches DockerCommand::Action { id, action } ==> event@
            == EventModel::OperationFailed("Action failed for "@ + id@ + ": "@ + error@),
{
}

/// A connection is told with the version of the engine.
pub proof fn the_version_is_told(version: String, event: DockerEvent)
    requires
        call_ensures(connected, (Some(Some(version)),), event),
    ensures
        event@ == EventModel::Connected("Connected to "@ + version@),
{
}

/// An inspection says whether a container runs by the member `Running` of its state.
pub proof fn inspections_tell_what_runs(
    object: Members,
    state: Members,
    told: bool,
    running: bool,
)
    requires
        call_ensures(inspect_says_running, (&JsonValue::Object(object),), running),
        has_member(object@, "State"@, JsonValue::Object(state)),
    ensures
        has_member(state@, "Running"@, JsonValue::Bool(told)) ==> running == told,
        lacks(state@, "Running"@) ==> !running,
{
    members_are_found(object@, "State"@, JsonValue::Object(state));
    members_are_found(state@, "Running"@, JsonValue::Bool(told));
}

// ---------------------------------------------------------------------------------------------
// Containers and details
// ---------------------------------------------------------------------------------------------

/// The containers of a list are what each summary alone is read as, in their order; they cannot
/// be read where one of the summaries cannot.
pub proof fn summaries_are_read_one_by_one(
    values: Vec<JsonValue>,
    result: Result<Vec<ContainerRecord>, SummaryError>,
    at: int,
    own: Result<ContainerRecord, SummaryError>,
)
    requires
        call_ensures(parse_summaries, (values,), result),
        0 <= at < values@.len(),
        call_ensures(ContainerRecord::from_summary_value, (values@[at],), own),
    ensures
        own is Err ==> result is Err,
        result matches Ok(records) ==> records@.len() == values@.len() && own is Ok
            && records@[at]@ == own->Ok_0@,
{
    if result is Ok {
        let records = result->Ok_0;
        assert(record_models(records@)[at] == summary_records(values@)[at]);
        assert(record_models(records@).len() == records@.len());
        assert(record_models(records@)[at] == records@[at]@);
        assert(values@[at] is Object);
    } else {
        assert(own is Err ==> !(values@[at] is Object));
    }
}

/// The details of a container are those of the one with its identifier: the second row of the
/// overview is the identifier. Where no container has it, it is told to be gone.
pub proof fn details_are_of_the_container(
    id: &str,
    summaries: Vec<JsonValue>,
    object: Members,
    result: Result<ContainerDetails, DetailsError>,
)
    requires
        call_ensures(parse_details, (id, summaries, JsonValue::Object(object)), result),
    ensures
        result matches Ok(details) ==> details.overview@.len() >= 5
            && details.overview@[1].label@ == "ID"@ && details.overview@[1].value@ == id@,
        result == Err::<ContainerDetails, DetailsError>(DetailsError::Gone) ==> forall|i: int|
            0 <= i < summary_records(summaries@).len() ==> (#[trigger] summary_records(
                summaries@,
            )[i]).id != id@,
{
    found_by_id(summary_records(summaries@), id@);
    if result is Ok {
        let details = result->Ok_0;
        let shown = details@.overview;
        assert(shown.len() == details.overview@.len());
        assert(shown[1].0 == "ID"@);
        assert(shown[1] == details.overview@[1]@);
    }
}

/// A container that is found by an identifier has it.
proof fn found_by_id(records: Seq<RecordModel>, id: Seq<char>)
    ensures
        match crate::docker::first_with_id(records, id) {
            Some(record) => record.id == id && records.contains(record),
            None => forall|i: int| 0 <= i < records.len() ==> (#[trigger] records[i]).id != id,
        },
    decreases records.len(),
{
    if records.len() > 0 {
        if records[0].id == id {
            assert(records.contains(records[0]));
        } else {
            found_by_id(records.skip(1), id);
            match crate::docker::first_with_id(records.skip(1), id) {
                Some(record) => {
                    let i = choose|i: int|
                        0 <= i < records.skip(1).len() && records.skip(1)[i] == record;
                    assert(records[i + 1] == record);
                },
                None => {
                    assert forall|i: int| 0 <= i < records.len() implies (
                        #[trigger] records[i]).id != id by {
                        if i > 0 {
                            assert(records.skip(1)[i - 1] == records[i]);
                        }
                    }
                },
            }
        }
    }
}

// ---------------------------------------------------------------------------------------------
// What is made of events
// ---------------------------------------------------------------------------------------------

/// Details of the selected container are shown; its new lines come behind the others.
pub proof fn news_of_the_selected_container_count(
    app: AppModel,
    id: String,
    details: ContainerDetails,
    entries: Vec<LogEntry>,
    ordered: Seq<ContainerRecord>,
)
    requires
        app.selected_id == Some(id@),
        app.logs.entries.len() + entries@.len() <= app.logs.max_entries,
    ensures
        app.after_event(DockerEvent::InspectLoaded { id, details }, ordered) == (
            AppModel { details: Some(details), ..app },
            Seq::<UiModel>::empty(),
        ),
        app.after_event(DockerEvent::LogChunk { id, entries }, ordered).0.logs.entries
            == app.logs.entries + entries@,
        !app.after_event(DockerEvent::LogChunk { id, entries }, ordered).0.logs.loading,
        !app.after_event(DockerEvent::LogsReady { id }, ordered).0.logs.loading,
        app.after_event(DockerEvent::LogsReady { id }, ordered).0.logs.entries == app.logs.entries,
        app.after_event(DockerEvent::LogsReset { id }, ordered).0.logs.entries.len() == 0,
        app.after_event(DockerEvent::LogsReset { id }, ordered).0.logs.loading,
        app.after_event(DockerEvent::LogsReset { id }, ordered).0.logs.container_id == Some(id@),
{
    assert(app.logs.entries + entries@ =~= (app.logs.entries + entries@));
    if entries@.len() == 0 {
        assert(app.logs.entries + entries@ =~= app.logs.entries);
    }
}

/// What the engine says is shown in the status line: a failure as an error, a success not, and
/// after a success the containers are listed anew and the selected one is looked at anew.
pub proof fn the_engine_is_quoted(
    app: AppModel,
    message: String,
    ordered: Seq<ContainerRecord>,
)
    ensures
        app.after_event(DockerEvent::OperationFailed(message), ordered) == (
            AppModel { status: message@, last_error: Some(message@), ..app },
            Seq::<UiModel>::empty(),
        ),
        app.after_event(DockerEvent::Connected(message), ordered) == (
            AppModel { status: message@, last_error: None, ..app },
            Seq::<UiModel>::empty(),
        ),
        app.after_event(DockerEvent::OperationSucceeded(message), ordered).0 == (AppModel {
            status: message@,
            last_error: None,
            ..app
        }),
        app.selected() is Some ==> app.after_event(
            DockerEvent::OperationSucceeded(message),
            ordered,
        ).1 == seq![
            UiModel::Docker(RequestModel::RefreshContainers),
            UiModel::Docker(RequestModel::LoadInspect { id: app.selected()->0@.id }),
        ],
        app.selected() is None ==> app.after_event(
            DockerEvent::OperationSucceeded(message),
            ordered,
        ).1 == seq![UiModel::Docker(RequestModel::RefreshContainers)],
{
    if app.selected() is Some {
        assert(app.after_event(DockerEvent::OperationSucceeded(message), ordered).1 =~= seq![
            UiModel::Docker(RequestModel::RefreshContainers),
            UiModel::Docker(RequestModel::LoadInspect { id: app.selected()->0@.id }),
        ]);
    } else {
        assert(app.after_event(DockerEvent::OperationSucceeded(message), ordered).1 =~= seq![
            UiModel::Docker(RequestModel::RefreshContainers),
        ]);
    }
}

/// The number of containers with a property.
pub open spec fn running_among(records: Seq<ContainerRecord>) -> nat {
    records.filter(|record: ContainerRecord| record@.running()).len()
}

/// The running containers are counted.
proof fn counting_is_filtering(records: Seq<ContainerRecord>)
    ensures
        crate::state::running_count(records) == running_among(records),
    decreases records.len(),
{
    reveal(Seq::filter);
    if records.len() > 0 {
        counting_is_filtering(records.drop_last());
    }
}

/// A list of containers takes the place of the one before, and is told with the number of
/// containers and of those that run; where another container becomes selected, the engine is
/// asked for its details and its log.
pub proof fn lists_are_told(
    app: AppModel,
    containers: Vec<ContainerRecord>,
    ordered: Seq<ContainerRecord>,
)
    requires
        ordered.len() > 0,
    ensures
        ({
            let (next, commands) = app.after_event(
                DockerEvent::ContainersUpdated(containers),
                ordered,
            );
            &&& next.containers == ordered
            &&& next.last_error is None
            &&& next.status == decimal(ordered.len()) + " containers loaded ("@ + decimal(
                running_among(ordered),
            ) + " running)"@
            &&& next.selected_id is Some && next.selected_id != app.selected_id ==> commands
                == seq![
                UiModel::Docker(RequestModel::LoadInspect { id: next.selected_id->0 }),
                UiModel::Docker(RequestModel::WatchLogs { id: next.selected_id->0 }),
            ]
            &&& next.selected_id == app.selected_id ==> commands.len() == 0
            &&& next.show_stopped == app.show_stopped
        }),
{
    counting_is_filtering(ordered);
    let told = AppModel { containers: ordered, ..app }.with_status(
        decimal(ordered.len()) + " containers loaded ("@ + decimal(
            crate::state::running_count(ordered),
        ) + " running)"@,
    );
    if told.visible().len() > 0 {
        let row = crate::laws::next_container_is_listed(told);
        crate::laws::listed_container_exists(told, row);
        crate::laws::position_is_first(told.containers, told.next_id(), 0);
    }
}

/// An empty list leaves nothing selected and nothing shown.
pub proof fn empty_lists_clear_the_screen(
    app: AppModel,
    containers: Vec<ContainerRecord>,
    ordered: Seq<ContainerRecord>,
)
    requires
        ordered.len() == 0,
    ensures
        ({
            let (next, commands) = app.after_event(
                DockerEvent::ContainersUpdated(containers),
                ordered,
            );
            &&& next.containers.len() == 0
            &&& next.selected_id is None
            &&& next.details is None
            &&& next.logs.entries.len() == 0
            &&& next.logs.container_id is None
            &&& next.status == "No containers found"@
            &&& commands.len() == 0
        }),
{
}

// ---------------------------------------------------------------------------------------------
// Settings
// ---------------------------------------------------------------------------------------------

/// The command line goes before the configuration; what it does not say is taken from there.
pub proof fn the_command_line_goes_first(cli: Cli, config: AppConfig, runtime: RuntimeConfig)
    requires
        call_ensures(RuntimeConfig::from_sources, (cli, config), runtime),
    ensures
        runtime.docker_host == cli.host,
        runtime.project_filter == cli.project,
        runtime.startup_container_query == cli.container,
        cli.all ==> runtime.show_stopped_by_default,
        !cli.all ==> runtime.show_stopped_by_default == config.show_stopped_by_default,
        runtime.show_timestamps == config.show_timestamps,
        runtime.keymap == config.keymap,
        cli.theme is None ==> runtime.theme == config.theme,
        cli.theme is Some && theme_named(cli.theme->0@) is None ==> runtime.theme == config.theme,
        50 <= config.log_backlog_lines <= 10_000 ==> runtime.log_backlog_lines
            == config.log_backlog_lines,
        config.log_backlog_lines < 50 ==> runtime.log_backlog_lines == 50,
        config.log_backlog_lines > 10_000 ==> runtime.log_backlog_lines == 10_000,
{
}

/// Each theme has its own name.
pub proof fn themes_have_their_names()
    ensures
        theme_named("graphite"@) == Some(ThemeName::Graphite),
        theme_named("ember"@) == Some(ThemeName::Ember),
        theme_named("ocean"@) == Some(ThemeName::Ocean),
{
    reveal_strlit("graphite");
    reveal_strlit("ember");
    reveal_strlit("ocean");
    let empty = Seq::<char>::empty();
    assert(empty + "graphite"@ + empty =~= "graphite"@);
    assert(empty + "ember"@ + empty =~= "ember"@);
    assert(empty + "ocean"@ + empty =~= "ocean"@);
    crate::text_laws::trimming_leaves_the_core(empty, "graphite"@, empty);
    crate::text_laws::trimming_leaves_the_core(empty, "ember"@, empty);
    crate::text_laws::trimming_leaves_the_core(empty, "ocean"@, empty);
    crate::text_laws::lowering_forgets_the_case_alone("graphite"@, "ember"@);
    crate::text_laws::lowering_forgets_the_case_alone("graphite"@, "ocean"@);
    crate::text_laws::lowering_forgets_the_case_alone("ember"@, "ocean"@);
    assert(!crate::text_laws::same_but_case("ember"@, "ocean"@)) by {
        assert(!crate::text_laws::same_letter("ember"@[0], "ocean"@[0]));
    }
}

/// The program starts as its settings say: with the list in focus and the log shown, following
/// its end, and no container yet.
pub proof fn the_start_is_as_set(
    runtime: RuntimeConfig,
    config_path: Option<Seq<char>>,
    sections: Sections,
)
    ensures
        ({
            let app = started(runtime, config_path, sections);
            &&& app.show_stopped == runtime.show_stopped_by_default
            &&& app.project_filter == text_of(runtime.project_filter)
            &&& app.startup_container_query == text_of(runtime.startup_container_query)
            &&& app.logs.show_timestamps == runtime.show_timestamps
            &&& runtime.log_backlog_lines <= 10_000 && usize::MAX >= 200_000
                ==> app.logs.max_entries == 20 * runtime.log_backlog_lines
            &&& app.logs.follow && !app.logs.wrap
            &&& app.logs.filter_mode == LogFilterMode::Substring
            &&& app.logs.filter_query.len() == 0 && app.logs.search_query.len() == 0
            &&& app.containers.len() == 0 && app.selected_id is None
            &&& app.focus == Focus::Containers && app.detail_tab == DetailTab::Logs
            &&& !app.confirm_remove && app.input is None
            &&& config_path matches Some(path) ==> app.status == "Config: "@ + path
            &&& config_path is None ==> app.status == "Config: defaults"@
        }),
{
}

// ---------------------------------------------------------------------------------------------
// Log output
// ---------------------------------------------------------------------------------------------

/// Output is told to be of the stream that it came from.
pub proof fn streams_have_their_names(output: LogOutput, at: int)
    requires
        0 <= at < output_entries(output).len(),
    ensures
        output is StdOut ==> output_entries(output)[at].stream == "stdout"@,
        output is StdErr ==> output_entries(output)[at].stream == "stderr"@,
        output is StdIn ==> output_entries(output)[at].stream == "stdin"@,
        output is Console ==> output_entries(output)[at].stream == "console"@,
{
}

/// The line feeds at the end of a line are taken off, and nothing else is.
pub proof fn line_feeds_are_taken_off(core: Seq<char>, feeds: Seq<char>)
    requires
        forall|i: int| 0 <= i < feeds.len() ==> #[trigger] feeds[i] == '\n',
        core.len() > 0 ==> core.last() != '\n',
    ensures
        without_feeds(core + feeds) == core,
    decreases feeds.len(),
{
    if feeds.len() == 0 {
        assert(core + feeds =~= core);
    } else {
        assert((core + feeds).last() == feeds.last());
        assert((core + feeds).drop_last() =~= core + feeds.drop_last());
        line_feeds_are_taken_off(core, feeds.drop_last());
    }
}

/// A line without a timestamp is all message; one with a timestamp is the rest of it. Without its
/// escape sequences it is the plain message.
pub proof fn lines_are_timestamp_and_message(
    stream: Seq<char>,
    line: Seq<char>,
    timestamp: Seq<char>,
    message: Seq<char>,
)
    ensures
        entry_of(stream, line, None).timestamp is None,
        entry_of(stream, line, None).message == line,
        entry_of(stream, line, None).plain_message == crate::ansi::stripped(line),
        entry_of(stream, line, Some((timestamp, message))).timestamp == Some(timestamp),
        entry_of(stream, line, Some((timestamp, message))).message == message,
        entry_of(stream, line, Some((timestamp, message))).plain_message
            == crate::ansi::stripped(message),
        entry_of(stream, line, None).stream == stream,
        entry_of(stream, line, Some((timestamp, message))).stream == stream,
{
}

/// Every line of a text is read by itself, in their order.
pub proof fn lines_are_read_one_by_one(stream: Seq<char>, message: Seq<char>, at: int)
    requires
        0 <= at < line_parts(message).len(),
    ensures
        entries_of(stream, message).len() == line_parts(message).len(),
        entries_of(stream, message)[at] == entry_from(stream, line_parts(message)[at]),
{
}

/// The parts of a text that ends with a line feed, and those of what follows, are all its parts.
pub proof fn lines_of_joined_texts(a: Seq<char>, b: Seq<char>)
    requires
        a.len() == 0 || a.last() == '\n',
    ensures
        line_parts(a + b) == line_parts(a) + line_parts(b),
    decreases b.len(),
{
    if b.len() == 0 {
        assert(a + b =~= a);
        assert(line_parts(a) + line_parts(b) =~= line_parts(a));
    } else {
        let inner = b.drop_last();
        lines_of_joined_texts(a, inner);
        assert((a + b).drop_last() =~= a + inner);
        assert((a + b).last() == b.last());
        if a.len() > 0 {
            last_line_ends_the_text(a);
        }
        if inner.len() > 0 {
            last_line_ends_the_text(inner);
        }
        assert(line_parts(a + b) =~= line_parts(a) + line_parts(b));
    }
}

/// The last line of a text ends as the text does.
proof fn last_line_ends_the_text(s: Seq<char>)
    requires
        s.len() > 0,
    ensures
        line_parts(s).len() > 0,
        line_parts(s).last().len() > 0,
        line_parts(s).last().last() == s.last(),
{
}

// ---------------------------------------------------------------------------------------------
// Watching a log
// ---------------------------------------------------------------------------------------------

/// A line with a timestamp passes the replay gate if it is later than the last one, or if it has
/// the same timestamp and has not been seen; a line without one passes unless it repeats the last
/// such line.
pub proof fn new_lines_pass_the_replay_gate(gate: GateModel, entry: EntryModel)
    ensures
        entry.timestamp matches Some(timestamp) && timestamp.len() > 0 && gate.last is None
            ==> gate.is_new(entry),
        entry.timestamp is Some && entry.timestamp->0.len() > 0 && gate.last == entry.timestamp
            ==> (gate.is_new(entry) <==> !gate.seen.contains(entry.signature())),
        entry.timestamp is None ==> (gate.is_new(entry) <==> gate.plain != Some(
            entry.signature(),
        )),
{
    if entry.timestamp is Some {
        text_order_is_total(entry.timestamp->0, entry.timestamp->0);
    }
}

/// Lines with other streams, timestamps or messages are told apart: the signature is the stream,
/// the timestamp and the message with bars between them.
pub proof fn signatures_hold_the_line(entry: EntryModel)
    ensures
        entry.timestamp matches Some(timestamp) ==> entry.signature() == entry.stream + seq!['|']
            + timestamp + seq!['|'] + entry.message,
        entry.timestamp is None ==> entry.signature() == entry.stream + seq!['|', '|']
            + entry.message,
{
    reveal_strlit("|");
    reveal_strlit("");
    assert("|"@ =~= seq!['|']);
    if entry.timestamp is None {
        assert(entry.signature() =~= entry.stream + seq!['|', '|'] + entry.message);
    }
}

/// A watch begins with an emptied log and its backlog, and follows the log when the backlog is
/// read: all its lines are sent first, in their order.
pub proof fn a_watch_begins_with_the_backlog(watcher: WatcherModel, output: LogOutput)
    ensures
        watcher.phase == WatchPhase::Waiting ==> watcher.stepped(WatchEvent::Begin).1 == seq![
            ActionModel::Send(EventModel::LogsReset { id: watcher.id }),
            ActionModel::ReadBacklog,
        ] && watcher.stepped(WatchEvent::Begin).0.phase == WatchPhase::Backlog,
        watcher.phase == WatchPhase::Backlog ==> watcher.stepped(
            WatchEvent::Output(output),
        ).0.backlog == watcher.backlog + output_entries(output) && watcher.stepped(
            WatchEvent::Output(output),
        ).1.len() == 0,
        watcher.phase == WatchPhase::Backlog && watcher.backlog.len() > 0 ==> watcher.stepped(
            WatchEvent::Ended,
        ).1 == seq![
            ActionModel::Send(
                EventModel::LogChunk { id: watcher.id, entries: watcher.backlog },
            ),
            ActionModel::Send(EventModel::LogsReady { id: watcher.id }),
            ActionModel::Follow { since: watcher.since },
        ],
        watcher.phase == WatchPhase::Backlog && watcher.backlog.len() == 0 ==> watcher.stepped(
            WatchEvent::Ended,
        ).1 == seq![
            ActionModel::Send(EventModel::LogsReady { id: watcher.id }),
            ActionModel::Follow { since: watcher.since },
        ],
{
    if watcher.phase == WatchPhase::Backlog && watcher.backlog.len() > 0 {
        assert(watcher.stepped(WatchEvent::Ended).1 =~= seq![
            ActionModel::Send(EventModel::LogChunk { id: watcher.id, entries: watcher.backlog }),
            ActionModel::Send(EventModel::LogsReady { id: watcher.id }),
            ActionModel::Follow { since: watcher.since },
        ]);
    }
    if watcher.phase == WatchPhase::Backlog && watcher.backlog.len() == 0 {
        assert(watcher.stepped(WatchEvent::Ended).1 =~= seq![
            ActionModel::Send(EventModel::LogsReady { id: watcher.id }),
            ActionModel::Follow { since: watcher.since },
        ]);
    }
}

/// Of the followed log the new lines are sent, in their order, and nothing is sent where none is
/// new. A stream that has brought lines and is over is opened anew after half a second, from the
/// last moment on; one that broke off is told.
pub proof fn a_watch_goes_on_with_the_log(
    watcher: WatcherModel,
    output: LogOutput,
    error: String,
)
    requires
        watcher.phase == WatchPhase::Following,
    ensures
        passed(watcher.gate, output_entries(output)).1.len() > 0 ==> watcher.stepped(
            WatchEvent::Output(output),
        ).1 == seq![
            ActionModel::Send(
                EventModel::LogChunk {
                    id: watcher.id,
                    entries: passed(watcher.gate, output_entries(output)).1,
                },
            ),
        ] && watcher.stepped(WatchEvent::Output(output)).0.saw_bytes,
        passed(watcher.gate, output_entries(output)).1.len() == 0 ==> watcher.stepped(
            WatchEvent::Output(output),
        ).1.len() == 0,
        watcher.saw_bytes ==> watcher.stepped(WatchEvent::Ended).1 == seq![
            ActionModel::Rest { millis: 500 },
        ],
        watcher.saw_bytes ==> watcher.stepped(WatchEvent::Ended).0.stepped(WatchEvent::Rested).1
            == seq![ActionModel::Follow { since: watcher.since }],
        watcher.stepped(WatchEvent::Failed(error)).1.len() > 0 && watcher.stepped(
            WatchEvent::Failed(error),
        ).1[0] == ActionModel::Send(
            EventModel::OperationFailed(
                "Log stream dropped for "@ + watcher.id + ": "@ + error@,
            ),
        ),
{
}

/// New lines are picked in their order: a line that is new comes behind those before it, and one
/// that is not is left out.
pub proof fn new_lines_are_picked_out(
    gate: GateModel,
    entries: Seq<EntryModel>,
    entry: EntryModel,
)
    ensures
        passed(gate, Seq::empty()) == (gate, Seq::<EntryModel>::empty()),
        passed(gate, entries).0.is_new(entry) ==> passed(gate, entries.push(entry)).1 == passed(
            gate,
            entries,
        ).1.push(entry),
        !passed(gate, entries).0.is_new(entry) ==> passed(gate, entries.push(entry)) == passed(
            gate,
            entries,
        ),
{
    assert(entries.push(entry).drop_last() =~= entries);
}

/// The log is followed from the moment of the last line that tells one.
pub proof fn the_last_moment_counts(
    since: i32,
    before: Seq<EntryModel>,
    entry: EntryModel,
    behind: Seq<EntryModel>,
    moment: i32,
)
    requires
        since_marker(entry) == Some(moment),
        forall|i: int| 0 <= i < behind.len() ==> since_marker(#[trigger] behind[i]) is None,
    ensures
        since_after(since, before.push(entry) + behind) == moment,
        since_after(since, behind) == since,
    decreases behind.len(),
{
    let all = before.push(entry) + behind;
    if behind.len() == 0 {
        assert(all =~= before.push(entry));
    } else {
        assert(all.last() == behind.last());
        assert(all.drop_last() =~= before.push(entry) + behind.drop_last());
        assert(since_marker(behind[behind.len() - 1]) is None);
        assert forall|i: int| 0 <= i < behind.drop_last().len() implies since_marker(
            #[trigger] behind.drop_last()[i],
        ) is None by {
            assert(behind.drop_last()[i] == behind[i]);
        }
        the_last_moment_counts(since, before, entry, behind.drop_last(), moment);
    }
}


// ---------------------------------------------------------------------------------------------
// The selection when the list changes
// ---------------------------------------------------------------------------------------------

/// A container is asked for by its identifier, or by how its name begins, in any case.
pub proof fn names_are_asked_for_by_their_beginning(record: ContainerRecord, query: Seq<char>)
    ensures
        is_named(record, query) <==> (record.id@ == query || exists|middle: Seq<char>, behind: Seq<
            char,
        >| #[trigger] splits_round(record.name@, Seq::empty(), middle, behind, query)),
{
    beginning_is_splitting(record.name@, query);
}

/// Where nothing listed is selected, the first container of the list becomes selected, unless one
/// is asked for: then it is the first one that is named so, or else the first one that answers to
/// the query.
pub proof fn another_container_becomes_selected(app: AppModel, query: Seq<char>, row: int)
    requires
        app.selected_row() is None,
        app.visible().len() > 0,
        0 <= row < app.visible().len(),
    ensures
        app.startup_container_query is None ==> app.reconciled().0.selected_id == Some(
            app.visible()[0]@.id,
        ),
        app.startup_container_query == Some(query) && is_named(app.visible()[row], query) && (
        forall|i: int| 0 <= i < row ==> !is_named(#[trigger] app.visible()[i], query))
            ==> app.reconciled().0.selected_id == Some(app.visible()[row]@.id),
        app.startup_container_query == Some(query) && (forall|i: int|
            0 <= i < app.visible().len() ==> !is_named(#[trigger] app.visible()[i], query))
            && app.visible()[row]@.matches(query) && (forall|i: int|
            0 <= i < row ==> !(#[trigger] app.visible()[i])@.matches(query))
            ==> app.reconciled().0.selected_id == Some(app.visible()[row]@.id),
        app.startup_container_query == Some(query) && (forall|i: int|
            0 <= i < app.visible().len() ==> !is_named(#[trigger] app.visible()[i], query)
                && !app.visible()[i]@.matches(query)) ==> app.reconciled().0.selected_id == Some(
            app.visible()[0]@.id,
        ),
{
    crate::laws::first_such_is_first(
        app.visible(),
        |record: ContainerRecord| is_named(record, query),
        0,
    );
    crate::laws::first_such_is_first(
        app.visible(),
        |record: ContainerRecord| record@.matches(query),
        0,
    );
}

/// Selecting another listed container forgets the details and the log of the one before, and asks
/// the engine for those of the new one.
pub proof fn selecting_asks_for_the_container(app: AppModel, row: int)
    requires
        0 <= row < app.visible().len(),
        app.selected_id != Some(app.visible()[row]@.id),
    ensures
        ({
            let id = app.visible()[row]@.id;
            let (next, commands) = app.selecting(id);
            &&& next.selected_id == Some(id)
            &&& next.details is None
            &&& next.logs.entries.len() == 0
            &&& next.logs.loading
            &&& next.logs.container_id == Some(id)
            &&& commands == seq![
                UiModel::Docker(RequestModel::LoadInspect { id }),
                UiModel::Docker(RequestModel::WatchLogs { id }),
            ]
        }),
{
    let id = app.visible()[row]@.id;
    crate::laws::listed_container_exists(app, row);
    crate::laws::position_is_first(app.containers, id, 0);
}

// ---------------------------------------------------------------------------------------------
// Moments
// ---------------------------------------------------------------------------------------------

/// The marker of a moment is its seconds where they fit in 32 bits, and else the latest moment.
pub proof fn moments_are_seconds(seconds: i64, marker: i32)
    requires
        call_ensures(marker_of, (seconds,), marker),
    ensures
        -0x8000_0000 <= seconds <= 0x7fff_ffff ==> marker == seconds,
        seconds < -0x8000_0000 || seconds > 0x7fff_ffff ==> marker == 0x7fff_ffff,
{
}

/// A line tells its moment by its timestamp, where that is one and fits in 32 bits.
pub proof fn lines_tell_their_moment(entry: LogEntry, marker: Option<i32>, seconds: i64)
    requires
        call_ensures(log_since_marker, (&entry,), marker),
    ensures
        entry.timestamp is None ==> marker is None,
        entry.timestamp is Some && rfc3339_seconds(entry.timestamp->0@) is None ==> marker is None,
        entry.timestamp is Some && rfc3339_seconds(entry.timestamp->0@) == Some(seconds)
            && -0x8000_0000 <= seconds <= 0x7fff_ffff ==> marker == Some(seconds as i32),
        entry.timestamp is Some && rfc3339_seconds(entry.timestamp->0@) == Some(seconds) && (
        seconds < -0x8000_0000 || seconds > 0x7fff_ffff) ==> marker is None,
{
}


/// A line with a timestamp between two equal lines without one lets the second of them pass.
pub proof fn plain_lines_pass_after_others(
    gate: GateModel,
    plain: EntryModel,
    stamped: EntryModel,
)
    requires
        plain.timestamp is None,
        stamped.timestamp is Some && stamped.timestamp->0.len() > 0,
    ensures
        gate.remembering(plain).remembering(stamped).is_new(plain),
        !gate.remembering(plain).is_new(plain),
        gate.remembering(stamped).last == stamped.timestamp,
        gate.remembering(plain).last == gate.last,
{
}


/// A backlog that breaks off is told, and the watch stops.
pub proof fn a_broken_backlog_is_told(watcher: WatcherModel, error: String)
    requires
        watcher.phase == WatchPhase::Backlog,
    ensures
        watcher.stepped(WatchEvent::Failed(error)).1 == seq![
            ActionModel::Send(
                EventModel::OperationFailed(
                    "Backlog fetch failed for "@ + watcher.id + ": "@ + error@,
                ),
            ),
            ActionModel::Stop,
        ],
{
}

/// Lines that come move the window with them where the end is followed: the last line is selected
/// and visible.
pub proof fn followed_lines_are_visible(
    app: AppModel,
    id: String,
    entries: Vec<LogEntry>,
    ordered: Seq<ContainerRecord>,
)
    requires
        app.selected_id == Some(id@),
        app.logs.follow,
    ensures
        ({
            let next = app.after_event(DockerEvent::LogChunk { id, entries }, ordered).0;
            let last = next.logs.filtered().len() - 1;
            last >= 0 ==> next.logs.follow && next.logs.selected == last && next.logs.scroll_top
                <= last < next.logs.scroll_top + next.log_rows()
        }),
{
}

} // verus!
