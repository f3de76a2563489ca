//! What is asked of the Docker engine, what comes back, and the decisions in between.

use crate::json::{bool_value, get, get_bool, member, JsonValue};
use crate::model::{
    entry_models, inspect_details, no_details, summary_record, ContainerDetails, ContainerRecord,
    DetailsModel, EntryModel, LogEntry, RecordModel, SummaryError,
};
use crate::stream::{
    later_lines_are_accepted, log_since_marker, output_entries, parse_log_output,
    remembered_lines_are_refused, remembering_all, replayed_lines_are_refused, since_marker,
    stamped_in_order, GateModel, LogOutput, LogReplayGate,
};
use crate::text::{concat, copied, same_text, text_less};
use vstd::prelude::*;

verus! {

/// What can be done with a container.
#[derive(Clone, Copy, Debug, PartialEq, Eq, Structural)]
pub enum ContainerAction {
    StartStop,
    Restart,
    Remove,
}

/// What is asked of the engine.
#[derive(Clone, Debug)]
pub enum DockerCommand {
    RefreshContainers,
    LoadInspect { id: String },
    WatchLogs { id: String },
    Action { id: String, action: ContainerAction },
}

/// What comes back from the engine.
#[derive(Debug)]
pub enum DockerEvent {
    Connected(String),
    ContainersUpdated(Vec<ContainerRecord>),
    InspectLoaded { id: String, details: ContainerDetails },
    LogsReset { id: String },
    LogsReady { id: String },
    LogChunk { id: String, entries: Vec<LogEntry> },
    OperationSucceeded(String),
    OperationFailed(String),
}

/// What a command says.
#[verifier::ext_equal]
pub enum RequestModel {
    RefreshContainers,
    LoadInspect { id: Seq<char> },
    WatchLogs { id: Seq<char> },
    Action { id: Seq<char>, action: ContainerAction },
}

impl View for DockerCommand {
    type V = RequestModel;

    open spec fn view(&self) -> RequestModel {
        match *self {
            DockerCommand::RefreshContainers => RequestModel::RefreshContainers,
            DockerCommand::LoadInspect { id } => RequestModel::LoadInspect { id: id@ },
            DockerCommand::WatchLogs { id } => RequestModel::WatchLogs { id: id@ },
            DockerCommand::Action { id, action } => RequestModel::Action { id: id@, action },
        }
    }
}

/// What an event says.
#[verifier::ext_equal]
pub enum EventModel {
    Connected(Seq<char>),
    ContainersUpdated(Seq<ContainerRecord>),
    InspectLoaded { id: Seq<char>, details: ContainerDetails },
    LogsReset { id: Seq<char> },
    LogsReady { id: Seq<char> },
    LogChunk { id: Seq<char>, entries: Seq<EntryModel> },
    OperationSucceeded(Seq<char>),
    OperationFailed(Seq<char>),
}

impl View for DockerEvent {
    type V = EventModel;

    open spec fn view(&self) -> EventModel {
        match *self {
            DockerEvent::Connected(message) => EventModel::Connected(message@),
            DockerEvent::ContainersUpdated(containers) => EventModel::ContainersUpdated(
                containers@,
            ),
            DockerEvent::InspectLoaded { id, details } => EventModel::InspectLoaded {
                id: id@,
                details,
            },
            DockerEvent::LogsReset { id } => EventModel::LogsReset { id: id@ },
            DockerEvent::LogsReady { id } => EventModel::LogsReady { id: id@ },
            DockerEvent::LogChunk { id, entries } => EventModel::LogChunk {
                id: id@,
                entries: entry_models(entries@),
            },
            DockerEvent::OperationSucceeded(message) => EventModel::OperationSucceeded(message@),
            DockerEvent::OperationFailed(message) => EventModel::OperationFailed(message@),
        }
    }
}

/// What some events say.
pub open spec fn event_models(events: Seq<DockerEvent>) -> Seq<EventModel> {
    events.map_values(|event: DockerEvent| event@)
}

// ---------------------------------------------------------------------------------------------
// Messages
// ---------------------------------------------------------------------------------------------

/// The event of a connection, given what the engine answers when it is asked for its version: no
/// answer, or an answer with or without a version.
pub fn connected(version: Option<Option<String>>) -> (event: DockerEvent)
    ensures
        event@ == EventModel::Connected(
            "Connected to "@ + match version {
                Some(Some(version)) => version@,
                Some(None) => "unknown Docker version"@,
                None => "Docker connected"@,
            },
        ),
{
    let version = match version {
        Some(Some(version)) => version,
        Some(None) => copied("unknown Docker version"),
        None => copied("Docker connected"),
    };
    DockerEvent::Connected(concat("Connected to ", version.as_str()))
}

/// What was asked when something failed.
pub open spec fn failure_prefix(command: RequestModel) -> Seq<char> {
    match command {
        RequestModel::RefreshContainers => "Refresh failed: "@,
        RequestModel::LoadInspect { .. } => "Inspect failed: "@,
        RequestModel::WatchLogs { id } => "Backlog fetch failed for "@ + id + ": "@,
        RequestModel::Action { id, .. } => "Action failed for "@ + id + ": "@,
    }
}

/// The event of a command that failed; of log watching, that its backlog could not be read.
pub fn command_failed(command: &DockerCommand, error: &str) -> (event: DockerEvent)
    ensures
        event@ == EventModel::OperationFailed(failure_prefix(command@) + error@),
{
    let prefix = match command {
        DockerCommand::RefreshContainers => copied("Refresh failed: "),
        DockerCommand::LoadInspect { .. } => copied("Inspect failed: "),
        DockerCommand::WatchLogs { id } => {
            let head = concat("Backlog fetch failed for ", id.as_str());
            concat(head.as_str(), ": ")
        },
        DockerCommand::Action { id, .. } => {
            let head = concat("Action failed for ", id.as_str());
            concat(head.as_str(), ": ")
        },
    };
    DockerEvent::OperationFailed(concat(prefix.as_str(), error))
}

/// The event of a stream of engine events that broke off.
pub fn events_disconnected(error: &str) -> (event: DockerEvent)
    ensures
        event@ == EventModel::OperationFailed("Docker event stream disconnected: "@ + error@),
{
    DockerEvent::OperationFailed(concat("Docker event stream disconnected: ", error))
}

/// What comes over the stream of engine events.
#[derive(Debug)]
pub enum EngineNotice {
    /// Something happened to a container, an image, a volume or a network.
    Happened,
    /// The stream broke off.
    Failed(String),
    /// The stream ended.
    Ended,
}

/// What follows from a notice of the engine.
#[derive(Debug)]
pub enum NoticeStep {
    /// A command goes to the engine, and the stream is read on.
    Ask(DockerCommand),
    /// An event is sent, if there is one; after some milliseconds the stream is opened anew.
    Reopen { report: Option<DockerEvent>, millis: u64 },
}

/// A step that follows from a notice, as a value.
pub enum NoticeModel {
    Ask(RequestModel),
    Reopen { report: Option<EventModel>, millis: u64 },
}

impl View for NoticeStep {
    type V = NoticeModel;

    open spec fn view(&self) -> NoticeModel {
        match *self {
            NoticeStep::Ask(command) => NoticeModel::Ask(command@),
            NoticeStep::Reopen { report, millis } => NoticeModel::Reopen {
                report: match report {
                    Some(event) => Some(event@),
                    None => None,
                },
                millis,
            },
        }
    }
}

/// What follows from a notice: whatever happened, the containers are listed anew; a stream that
/// broke off is reported; and a stream that is over is opened anew after two seconds.
pub open spec fn notice_step(notice: EngineNotice) -> NoticeModel {
    match notice {
        EngineNotice::Happened => NoticeModel::Ask(RequestModel::RefreshContainers),
        EngineNotice::Failed(error) => NoticeModel::Reopen {
            report: Some(
                EventModel::OperationFailed("Docker event stream disconnected: "@ + error@),
            ),
            millis: 2000,
        },
        EngineNotice::Ended => NoticeModel::Reopen { report: None, millis: 2000 },
    }
}

/// What follows from a notice of the engine.
pub fn engine_notice(notice: EngineNotice) -> (step: NoticeStep)
    ensures
        step@ == notice_step(notice),
{
    match notice {
        EngineNotice::Happened => NoticeStep::Ask(DockerCommand::RefreshContainers),
        EngineNotice::Failed(error) => NoticeStep::Reopen {
            report: Some(events_disconnected(error.as_str())),
            millis: 2000,
        },
        EngineNotice::Ended => NoticeStep::Reopen { report: None, millis: 2000 },
    }
}

// ---------------------------------------------------------------------------------------------
// Actions
// ---------------------------------------------------------------------------------------------

/// A call of the engine that changes a container.
#[derive(Clone, Copy, Debug, PartialEq, Eq, Structural)]
pub enum EngineCall {
    Start,
    /// Stop, with a number of seconds to stop in.
    Stop { timeout: i32 },
    /// Restart, with a number of seconds to stop in.
    Restart { timeout: i32 },
    /// Remove, a running container too where it is forced.
    Remove { force: bool },
}

/// An inspection says that the container runs.
pub open spec fn says_running(inspect: JsonValue) -> bool {
    match inspect {
        JsonValue::Object(object) => match member(object@, "State"@) {
            Some(JsonValue::Object(state)) => bool_value(member(state@, "Running"@)) == Some(true),
            _ => false,
        },
        _ => false,
    }
}

/// Whether an inspection says that the container runs.
pub fn inspect_says_running(inspect: &JsonValue) -> (running: bool)
    ensures
        running == says_running(*inspect),
{
    match inspect {
        JsonValue::Object(object) => match get(object, "State") {
            Some(JsonValue::Object(state)) => match get_bool(state, "Running") {
                Some(running) => running,
                None => false,
            },
            _ => false,
        },
        _ => false,
    }
}

/// The call that an action comes to: a running container is stopped, another one is started.
pub open spec fn call_for(action: ContainerAction, running: bool) -> EngineCall {
    match action {
        ContainerAction::StartStop => if running {
            EngineCall::Stop { timeout: 10 }
        } else {
            EngineCall::Start
        },
        ContainerAction::Restart => EngineCall::Restart { timeout: 10 },
        ContainerAction::Remove => EngineCall::Remove { force: true },
    }
}

/// The call that an action comes to.
pub fn engine_call(action: ContainerAction, running: bool) -> (call: EngineCall)
    ensures
        call == call_for(action, running),
{
    match action {
        ContainerAction::StartStop => if running {
            EngineCall::Stop { timeout: 10 }
        } else {
            EngineCall::Start
        },
        ContainerAction::Restart => EngineCall::Restart { timeout: 10 },
        ContainerAction::Remove => EngineCall::Remove { force: true },
    }
}

/// What is said of a call that succeeded.
pub open spec fn done_text(call: EngineCall, id: Seq<char>) -> Seq<char> {
    match call {
        EngineCall::Start => "Started "@ + id,
        EngineCall::Stop { .. } => "Stopped "@ + id,
        EngineCall::Restart { .. } => "Restarted "@ + id,
        EngineCall::Remove { .. } => "Removed "@ + id,
    }
}

/// The event of a call that succeeded.
pub fn call_succeeded(call: EngineCall, id: &str) -> (event: DockerEvent)
    ensures
        event@ == EventModel::OperationSucceeded(done_text(call, id@)),
{
    DockerEvent::OperationSucceeded(
        match call {
            EngineCall::Start => concat("Started ", id),
            EngineCall::Stop { .. } => concat("Stopped ", id),
            EngineCall::Restart { .. } => concat("Restarted ", id),
            EngineCall::Remove { .. } => concat("Removed ", id),
        },
    )
}

/// An action that starts or stops always changes whether the container runs.
pub proof fn start_stop_toggles(running: bool)
    ensures
        (call_for(ContainerAction::StartStop, running) == EngineCall::Start) == !running,
{
}

// ---------------------------------------------------------------------------------------------
// Containers
// ---------------------------------------------------------------------------------------------

/// The members of a summary; one that is no JSON object has none.
pub open spec fn summary_members(value: JsonValue) -> Seq<(String, JsonValue)> {
    match value {
        JsonValue::Object(object) => object@,
        _ => Seq::empty(),
    }
}

/// The containers that some summaries describe.
pub open spec fn summary_records(values: Seq<JsonValue>) -> Seq<RecordModel> {
    values.map_values(|value: JsonValue| summary_record(summary_members(value)))
}

/// What some container records say.
pub open spec fn record_models(records: Seq<ContainerRecord>) -> Seq<RecordModel> {
    records.map_values(|record: ContainerRecord| record@)
}

/// Every value is a JSON object.
pub open spec fn all_objects(values: Seq<JsonValue>) -> bool {
    forall|i: int| 0 <= i < values.len() ==> #[trigger] values[i] is Object
}

/// Reads container summaries. One that is no JSON object spoils them all.
pub fn parse_summaries(values: Vec<JsonValue>) -> (result: Result<
    Vec<ContainerRecord>,
    SummaryError,
>)
    ensures
        match result {
            Ok(records) => all_objects(values@) && record_models(records@) == summary_records(
                values@,
            ),
            Err(error) => !all_objects(values@) && error == SummaryError::NotAnObject,
        },
{
    let ghost given = values@;
    let ghost expected = summary_records(given);
    let mut records: Vec<ContainerRecord> = Vec::new();
    proof {
        assert(record_models(records@) =~= expected.take(0));
    }
    for value in it: values
        invariant
            it.seq() == given,
            expected == summary_records(given),
            record_models(records@) == expected.take(it.index() as int),
            forall|i: int| 0 <= i < it.index() ==> #[trigger] given[i] is Object,
    {
        let ghost i = it.index() as int;
        let ghost before = records@;
        match ContainerRecord::from_summary_value(value) {
            Ok(record) => {
                records.push(record);
                proof {
                    assert(record@ == expected[i]);
                    assert(record_models(records@) =~= record_models(before).push(record@));
                    assert(expected.take(i + 1) =~= expected.take(i).push(expected[i]));
                }
            },
            Err(error) => {
                proof {
                    assert(!(given[i] is Object));
                }
                return Err(error);
            },
        }
    }
    proof {
        assert(expected.take(given.len() as int) =~= expected);
    }
    Ok(records)
}

/// The first container with an identifier.
pub open spec fn first_with_id(records: Seq<RecordModel>, id: Seq<char>) -> Option<RecordModel>
    decreases records.len(),
{
    if records.len() == 0 {
        None
    } else if records[0].id == id {
        Some(records[0])
    } else {
        first_with_id(records.skip(1), id)
    }
}

/// Why the details of a container cannot be shown.
#[derive(Clone, Copy, Debug, PartialEq, Eq, Structural)]
pub enum DetailsError {
    /// A summary cannot be read.
    Summary(SummaryError),
    /// The engine no longer lists the container.
    Gone,
}

impl DetailsError {
    /// The error in words.
    pub fn message(self) -> (text: &'static str)
        ensures
            text@ == (match self {
                DetailsError::Summary(_) => "container summary must be a JSON object"@,
                DetailsError::Gone => "container no longer available"@,
            }),
    {
        match self {
            DetailsError::Summary(error) => error.message(),
            DetailsError::Gone => "container no longer available",
        }
    }
}

/// The details of a container that its summary and its inspection describe.
pub open spec fn details_model(summary: RecordModel, inspect: JsonValue) -> DetailsModel {
    match inspect {
        JsonValue::Object(object) => inspect_details(summary, object@),
        _ => no_details(),
    }
}

/// Reads the details of a container from its inspection and from the summaries of all
/// containers, among which its own is looked up.
pub fn parse_details(id: &str, summaries: Vec<JsonValue>, inspect: JsonValue) -> (result: Result<
    ContainerDetails,
    DetailsError,
>)
    ensures
        match result {
            Ok(details) => {
                let found = first_with_id(summary_records(summaries@), id@);
                all_objects(summaries@) && found is Some && details@ == details_model(
                    found->0,
                    inspect,
                )
            },
            Err(DetailsError::Summary(_)) => !all_objects(summaries@),
            Err(DetailsError::Gone) => all_objects(summaries@) && first_with_id(
                summary_records(summaries@),
                id@,
            ) is None,
        },
{
    let records = match parse_summaries(summaries) {
        Ok(records) => records,
        Err(error) => {
            return Err(DetailsError::Summary(error));
        },
    };
    let ghost all = record_models(records@);
    let mut i: usize = 0;
    proof {
        assert(all.skip(0) =~= all);
    }
    while i < records.len()
        invariant
            i <= records@.len(),
            all == record_models(records@),
            all_objects(summaries@),
            all == summary_records(summaries@),
            first_with_id(all, id@) == first_with_id(all.skip(i as int), id@),
        decreases records@.len() - i,
    {
        proof {
            assert(all.skip(i as int)[0] == records@[i as int]@);
            assert(all.skip(i as int).skip(1) =~= all.skip(i + 1));
        }
        if same_text(records[i].id.as_str(), id) {
            return Ok(ContainerDetails::from_inspect_value(&records[i], inspect));
        }
        i += 1;
    }
    proof {
        assert(all.skip(i as int).len() == 0);
    }
    Err(DetailsError::Gone)
}

// ---------------------------------------------------------------------------------------------
// Watching a log
// ---------------------------------------------------------------------------------------------

/// How far the watching of a log has come.
#[derive(Clone, Copy, Debug, PartialEq, Eq, Structural)]
pub enum WatchPhase {
    Waiting,
    /// The backlog is read.
    Backlog,
    /// The log is followed.
    Following,
    /// The log is about to be followed anew.
    Resting,
    Done,
}

/// What happens while a log is watched.
#[derive(Debug)]
pub enum WatchEvent {
    /// The log is to be watched.
    Begin,
    /// A piece of the log has come from the open stream.
    Output(LogOutput),
    /// The open stream broke off with an error.
    Failed(String),
    /// The open stream has ended.
    Ended,
    /// The rest is over.
    Rested,
}

/// What is to be done while a log is watched.
#[derive(Debug)]
pub enum WatchAction {
    Send(DockerEvent),
    /// Open the stream of the backlog.
    ReadBacklog,
    /// Open the stream of what comes from a moment on.
    Follow { since: i32 },
    /// Rest for some milliseconds.
    Rest { millis: u64 },
    Stop,
}

/// What an action says.
#[verifier::ext_equal]
pub enum ActionModel {
    Send(EventModel),
    ReadBacklog,
    Follow { since: i32 },
    Rest { millis: u64 },
    Stop,
}

impl View for WatchAction {
    type V = ActionModel;

    open spec fn view(&self) -> ActionModel {
        match *self {
            WatchAction::Send(event) => ActionModel::Send(event@),
            WatchAction::ReadBacklog => ActionModel::ReadBacklog,
            WatchAction::Follow { since } => ActionModel::Follow { since },
            WatchAction::Rest { millis } => ActionModel::Rest { millis },
            WatchAction::Stop => ActionModel::Stop,
        }
    }
}

/// What some actions say.
pub open spec fn action_models(actions: Seq<WatchAction>) -> Seq<ActionModel> {
    actions.map_values(|action: WatchAction| action@)
}

/// The events are sent, one after the other.
pub open spec fn sent(events: Seq<EventModel>) -> Seq<ActionModel> {
    events.map_values(|event: EventModel| ActionModel::Send(event))
}

/// Watches the log of a container: first the backlog is read, then the log is followed, and
/// followed anew when its stream ends after something has come.
pub struct LogWatcher {
    pub phase: WatchPhase,
    pub id: String,
    pub gate: LogReplayGate,
    pub since: i32,
    pub backlog: Vec<LogEntry>,
    pub saw_bytes: bool,
}

/// The state of a log watcher.
#[verifier::ext_equal]
pub struct WatcherModel {
    pub phase: WatchPhase,
    pub id: Seq<char>,
    pub gate: GateModel,
    pub since: i32,
    pub backlog: Seq<EntryModel>,
    pub saw_bytes: bool,
}

impl View for LogWatcher {
    type V = WatcherModel;

    open spec fn view(&self) -> WatcherModel {
        WatcherModel {
            phase: self.phase,
            id: self.id@,
            gate: self.gate@,
            since: self.since,
            backlog: entry_models(self.backlog@),
            saw_bytes: self.saw_bytes,
        }
    }
}

/// The moment of the last line that tells one, or the moment before.
pub open spec fn since_after(since: i32, entries: Seq<EntryModel>) -> i32
    decreases entries.len(),
{
    if entries.len() == 0 {
        since
    } else {
        match since_marker(entries.last()) {
            Some(marker) => marker,
            None => since_after(since, entries.drop_last()),
        }
    }
}

/// The replay gate after some lines have come to it, and the lines among them that were new.
pub open spec fn passed(gate: GateModel, entries: Seq<EntryModel>) -> (
    GateModel,
    Seq<EntryModel>,
)
    decreases entries.len(),
{
    if entries.len() == 0 {
        (gate, Seq::empty())
    } else {
        let (before, fresh) = passed(gate, entries.drop_last());
        if before.is_new(entries.last()) {
            (before.remembering(entries.last()), fresh.push(entries.last()))
        } else {
            (before, fresh)
        }
    }
}

impl WatcherModel {
    /// Lines of the backlog have come.
    pub open spec fn backlog_read(self, entries: Seq<EntryModel>) -> WatcherModel {
        WatcherModel {
            gate: remembering_all(self.gate, entries),
            since: since_after(self.since, entries),
            backlog: self.backlog + entries,
            ..self
        }
    }

    /// Lines of the followed log have come.
    pub open spec fn stream_read(self, entries: Seq<EntryModel>) -> WatcherModel {
        let (gate, fresh) = passed(self.gate, entries);
        WatcherModel {
            gate,
            since: since_after(self.since, fresh),
            saw_bytes: self.saw_bytes || fresh.len() > 0,
            ..self
        }
    }

    /// The events of a backlog that has been read: its lines, if there are any, and that the log
    /// is ready.
    pub open spec fn backlog_events(self) -> Seq<EventModel> {
        if self.backlog.len() == 0 {
            seq![EventModel::LogsReady { id: self.id }]
        } else {
            seq![
                EventModel::LogChunk { id: self.id, entries: self.backlog },
                EventModel::LogsReady { id: self.id },
            ]
        }
    }

    /// The log is followed from the last moment on.
    pub open spec fn following(self) -> WatcherModel {
        WatcherModel { phase: WatchPhase::Following, saw_bytes: false, ..self }
    }

    /// The stream of the followed log is over: after a rest it is opened anew where something has
    /// come, and else the watch is.
    pub open spec fn stream_over(self) -> (WatcherModel, Seq<ActionModel>) {
        if self.saw_bytes {
            (
                WatcherModel { phase: WatchPhase::Resting, ..self },
                seq![ActionModel::Rest { millis: 500 }],
            )
        } else {
            (WatcherModel { phase: WatchPhase::Done, ..self }, seq![ActionModel::Stop])
        }
    }

    /// What is said of a followed log that broke off.
    pub open spec fn dropped(self, error: Seq<char>) -> EventModel {
        EventModel::OperationFailed("Log stream dropped for "@ + self.id + ": "@ + error)
    }

    /// Something happens while the log is watched. What does not belong to the phase changes
    /// nothing.
    pub open spec fn stepped(self, event: WatchEvent) -> (WatcherModel, Seq<ActionModel>) {
        match (self.phase, event) {
            (WatchPhase::Waiting, WatchEvent::Begin) => (
                WatcherModel { phase: WatchPhase::Backlog, ..self },
                seq![
                    ActionModel::Send(EventModel::LogsReset { id: self.id }),
                    ActionModel::ReadBacklog,
                ],
            ),
            (WatchPhase::Backlog, WatchEvent::Output(output)) => (
                self.backlog_read(output_entries(output)),
                Seq::empty(),
            ),
            (WatchPhase::Backlog, WatchEvent::Failed(error)) => (
                WatcherModel { phase: WatchPhase::Done, ..self },
                seq![
                    ActionModel::Send(
                        EventModel::OperationFailed(
                            failure_prefix(RequestModel::WatchLogs { id: self.id }) + error@,
                        ),
                    ),
                    ActionModel::Stop,
                ],
            ),
            (WatchPhase::Backlog, WatchEvent::Ended) => (
                WatcherModel { backlog: Seq::empty(), ..self }.following(),
                sent(self.backlog_events()).push(ActionModel::Follow { since: self.since }),
            ),
            (WatchPhase::Following, WatchEvent::Output(output)) => {
                let fresh = passed(self.gate, output_entries(output)).1;
                (
                    self.stream_read(output_entries(output)),
                    if fresh.len() > 0 {
                        seq![
                            ActionModel::Send(
                                EventModel::LogChunk { id: self.id, entries: fresh },
                            ),
                        ]
                    } else {
                        Seq::empty()
                    },
                )
            },
            (WatchPhase::Following, WatchEvent::Failed(error)) => (
                self.stream_over().0,
                seq![ActionModel::Send(self.dropped(error@))] + self.stream_over().1,
            ),
            (WatchPhase::Following, WatchEvent::Ended) => self.stream_over(),
            (WatchPhase::Resting, WatchEvent::Rested) => (
                self.following(),
                seq![ActionModel::Follow { since: self.since }],
            ),
            _ => (self, Seq::empty()),
        }
    }
}

impl LogWatcher {
    /// The replay gate is well formed.
    pub open spec fn wf(self) -> bool {
        self.gate.wf()
    }

    /// A watcher that has read nothing yet, at a moment.
    pub fn new(id: String, now: i32) -> (watcher: Self)
        ensures
            watcher.wf(),
            watcher@ == (WatcherModel {
                phase: WatchPhase::Waiting,
                id: id@,
                gate: GateModel { last: None, seen: Set::empty(), plain: None },
                since: now,
                backlog: Seq::empty(),
                saw_bytes: false,
            }),
    {
        LogWatcher {
            phase: WatchPhase::Waiting,
            id,
            gate: LogReplayGate::default(),
            since: now,
            backlog: Vec::new(),
            saw_bytes: false,
        }
    }

    /// The event that the log is about to be read.
    pub fn opening(&self) -> (event: DockerEvent)
        ensures
            event@ == (EventModel::LogsReset { id: self@.id }),
    {
        DockerEvent::LogsReset { id: copied(self.id.as_str()) }
    }

    /// Reads a piece of the backlog.
    pub fn read_backlog(&mut self, output: LogOutput)
        requires
            old(self).wf(),
        ensures
            final(self).wf(),
            final(self)@ == old(self)@.backlog_read(output_entries(output)),
    {
        let mut entries = parse_log_output(output);
        let ghost models = entry_models(entries@);
        let ghost gate = self.gate@;
        let ghost since = self.since;
        let mut i: usize = 0;
        proof {
            assert(models.take(0) =~= Seq::empty());
        }
        while i < entries.len()
            invariant
                i <= entries@.len(),
                models == entry_models(entries@),
                self.wf(),
                self.gate@ == remembering_all(gate, models.take(i as int)),
                self.since == since_after(since, models.take(i as int)),
                self.phase == old(self).phase,
                self.id == old(self).id,
                self.backlog == old(self).backlog,
                self.saw_bytes == old(self).saw_bytes,
            decreases entries@.len() - i,
        {
            proof {
                assert(models.take(i + 1).drop_last() =~= models.take(i as int));
                assert(models.take(i + 1).last() == entries@[i as int]@);
            }
            if let Some(marker) = log_since_marker(&entries[i]) {
                self.since = marker;
            }
            self.gate.remember(&entries[i]);
            i += 1;
        }
        proof {
            assert(models.take(i as int) =~= models);
        }
        self.backlog.append(&mut entries);
        proof {
            assert(entry_models(self.backlog@) =~= entry_models(old(self).backlog@) + models);
        }
    }

    /// The events of a backlog that has been read: its lines, if there are any, and that the log
    /// is ready.
    pub fn finish_backlog(&mut self) -> (events: Vec<DockerEvent>)
        requires
            old(self).wf(),
        ensures
            final(self).wf(),
            final(self)@ == (WatcherModel { backlog: Seq::empty(), ..old(self)@ }),
            event_models(events@) == old(self)@.backlog_events(),
    {
        let mut events: Vec<DockerEvent> = Vec::new();
        let mut entries: Vec<LogEntry> = Vec::new();
        entries.append(&mut self.backlog);
        proof {
            assert(entries@ =~= old(self).backlog@);
            assert(entry_models(self.backlog@) =~= Seq::empty());
        }
        if entries.len() > 0 {
            events.push(DockerEvent::LogChunk { id: copied(self.id.as_str()), entries });
        }
        events.push(DockerEvent::LogsReady { id: copied(self.id.as_str()) });
        proof {
            if old(self)@.backlog.len() == 0 {
                assert(event_models(events@) =~= seq![EventModel::LogsReady { id: self@.id }]);
            } else {
                assert(event_models(events@) =~= seq![
                    EventModel::LogChunk { id: self@.id, entries: old(self)@.backlog },
                    EventModel::LogsReady { id: self@.id },
                ]);
            }
        }
        events
    }

    /// Begins to follow the log, from the moment that is returned.
    pub fn open_stream(&mut self) -> (since: i32)
        requires
            old(self).wf(),
        ensures
            final(self).wf(),
            final(self)@ == (WatcherModel { saw_bytes: false, ..old(self)@ }),
            since == old(self)@.since,
    {
        self.saw_bytes = false;
        self.since
    }

    /// Reads a piece of the followed log. The lines that are new make an event.
    pub fn read_stream(&mut self, output: LogOutput) -> (event: Option<DockerEvent>)
        requires
            old(self).wf(),
        ensures
            final(self).wf(),
            final(self)@ == old(self)@.stream_read(output_entries(output)),
            match event {
                Some(event) => {
                    let fresh = passed(old(self)@.gate, output_entries(output)).1;
                    fresh.len() > 0 && event@ == (EventModel::LogChunk {
                        id: old(self)@.id,
                        entries: fresh,
                    })
                },
                None => passed(old(self)@.gate, output_entries(output)).1.len() == 0,
            },
    {
        let entries = parse_log_output(output);
        let ghost given = entries@;
        let ghost models = entry_models(given);
        let ghost gate = self.gate@;
        let ghost since = self.since;
        let mut fresh: Vec<LogEntry> = Vec::new();
        proof {
            assert(models.take(0) =~= Seq::empty());
            assert(entry_models(fresh@) =~= Seq::empty());
        }
        for entry in it: entries
            invariant
                it.seq() == given,
                models == entry_models(given),
                self.wf(),
                passed(gate, models.take(it.index() as int)) == (self.gate@, entry_models(fresh@)),
                self.since == since_after(since, entry_models(fresh@)),
                self.phase == old(self).phase,
                self.id == old(self).id,
                self.backlog == old(self).backlog,
                self.saw_bytes == old(self).saw_bytes,
        {
            let ghost i = it.index() as int;
            let ghost before = fresh@;
            proof {
                assert(models.take(i + 1).drop_last() =~= models.take(i));
                assert(models.take(i + 1).last() == entry@);
            }
            if self.gate.accepts(&entry) {
                if let Some(marker) = log_since_marker(&entry) {
                    self.since = marker;
                }
                fresh.push(entry);
                proof {
                    let now = entry_models(fresh@);
                    assert(now =~= entry_models(before).push(entry@));
                    assert(now.drop_last() =~= entry_models(before));
                    assert(now.last() == entry@);
                }
            }
        }
        proof {
            assert(models.take(given.len() as int) =~= models);
            assert(entry_models(fresh@).len() == fresh@.len());
        }
        if fresh.len() == 0 {
            return None;
        }
        self.saw_bytes = true;
        Some(DockerEvent::LogChunk { id: copied(self.id.as_str()), entries: fresh })
    }

    /// The event of a followed log that broke off.
    pub fn stream_dropped(&self, error: &str) -> (event: DockerEvent)
        ensures
            event@ == self@.dropped(error@),
    {
        let head = concat("Log stream dropped for ", self.id.as_str());
        let prefix = concat(head.as_str(), ": ");
        DockerEvent::OperationFailed(concat(prefix.as_str(), error))
    }

    /// Whether the log is followed anew when its stream has ended.
    pub fn reopens(&self) -> (b: bool)
        ensures
            b == self@.saw_bytes,
    {
        self.saw_bytes
    }

    fn end_stream(&mut self) -> (action: WatchAction)
        requires
            old(self).wf(),
        ensures
            final(self).wf(),
            (final(self)@, seq![action@]) == old(self)@.stream_over(),
    {
        if self.reopens() {
            self.phase = WatchPhase::Resting;
            WatchAction::Rest { millis: 500 }
        } else {
            self.phase = WatchPhase::Done;
            WatchAction::Stop
        }
    }

    fn end_backlog(&mut self) -> (actions: Vec<WatchAction>)
        requires
            old(self).wf(),
        ensures
            final(self).wf(),
            final(self)@ == (WatcherModel { backlog: Seq::empty(), ..old(self)@ }).following(),
            action_models(actions@) == sent(old(self)@.backlog_events()).push(
                ActionModel::Follow { since: old(self)@.since },
            ),
    {
        let events = self.finish_backlog();
        let ghost given = events@;
        let ghost expected = sent(event_models(given));
        let mut actions: Vec<WatchAction> = Vec::new();
        proof {
            assert(action_models(actions@) =~= expected.take(0));
        }
        for event in it: events
            invariant
                it.seq() == given,
                expected == sent(event_models(given)),
                action_models(actions@) == expected.take(it.index() as int),
        {
            let ghost i = it.index() as int;
            let ghost before = actions@;
            actions.push(WatchAction::Send(event));
            proof {
                assert(expected[i] == ActionModel::Send(event@));
                assert(action_models(actions@) =~= action_models(before).push(expected[i]));
                assert(expected.take(i + 1) =~= expected.take(i).push(expected[i]));
            }
        }
        let ghost before = actions@;
        self.phase = WatchPhase::Following;
        let since: i32 = self.open_stream();
        actions.push(WatchAction::Follow { since });
        proof {
            assert(expected.take(given.len() as int) =~= expected);
            assert(action_models(actions@) =~= action_models(before).push(
                ActionModel::Follow { since },
            ));
        }
        actions
    }

    /// Goes on with the watch when something has happened, and says what is to be done.
    pub fn step(&mut self, event: WatchEvent) -> (actions: Vec<WatchAction>)
        requires
            old(self).wf(),
        ensures
            final(self).wf(),
            (final(self)@, action_models(actions@)) == old(self)@.stepped(event),
    {
        let mut actions: Vec<WatchAction> = Vec::new();
        match (self.phase, event) {
            (WatchPhase::Waiting, WatchEvent::Begin) => {
                self.phase = WatchPhase::Backlog;
                actions.push(WatchAction::Send(self.opening()));
                actions.push(WatchAction::ReadBacklog);
            },
            (WatchPhase::Backlog, WatchEvent::Output(output)) => {
                self.read_backlog(output);
            },
            (WatchPhase::Backlog, WatchEvent::Failed(error)) => {
                self.phase = WatchPhase::Done;
                let command = DockerCommand::WatchLogs { id: copied(self.id.as_str()) };
                actions.push(WatchAction::Send(command_failed(&command, error.as_str())));
                actions.push(WatchAction::Stop);
            },
            (WatchPhase::Backlog, WatchEvent::Ended) => {
                return self.end_backlog();
            },
            (WatchPhase::Following, WatchEvent::Output(output)) => {
                if let Some(event) = self.read_stream(output) {
                    actions.push(WatchAction::Send(event));
                }
            },
            (WatchPhase::Following, WatchEvent::Failed(error)) => {
                actions.push(WatchAction::Send(self.stream_dropped(error.as_str())));
                actions.push(self.end_stream());
            },
            (WatchPhase::Following, WatchEvent::Ended) => {
                actions.push(self.end_stream());
            },
            (WatchPhase::Resting, WatchEvent::Rested) => {
                self.phase = WatchPhase::Following;
                let since: i32 = self.open_stream();
                actions.push(WatchAction::Follow { since });
            },
            _ => {},
        }
        proof {
            assert(action_models(actions@) =~= old(self)@.stepped(event).1);
        }
        actions
    }
}

/// A watch that is over stays over, and nothing more is to be done for it.
pub proof fn a_finished_watch_stays_finished(watcher: WatcherModel, event: WatchEvent)
    requires
        watcher.phase == WatchPhase::Done,
    ensures
        watcher.stepped(event) == (watcher, Seq::<ActionModel>::empty()),
{
}

/// A watch is over exactly when it is told to stop, and that is so only when the backlog broke
/// off, or when the stream of the followed log is over and brought nothing.
pub proof fn a_watch_stops_for_a_reason(watcher: WatcherModel, event: WatchEvent)
    requires
        watcher.phase != WatchPhase::Done,
    ensures
        watcher.stepped(event).0.phase == WatchPhase::Done <==> watcher.stepped(event).1.contains(
            ActionModel::Stop,
        ),
        watcher.stepped(event).0.phase == WatchPhase::Done <==> (watcher.phase
            == WatchPhase::Backlog && event is Failed) || (watcher.phase == WatchPhase::Following
            && (event is Failed || event is Ended) && !watcher.saw_bytes),
{
    let actions = watcher.stepped(event).1;
    if watcher.stepped(event).0.phase == WatchPhase::Done {
        assert(actions[actions.len() - 1] == ActionModel::Stop);
    }
}

/// A log is followed only after its backlog has ended, or after a rest; it is told ready exactly
/// when the backlog has ended, right before it is followed.
pub proof fn a_log_is_ready_before_it_is_followed(watcher: WatcherModel, event: WatchEvent)
    ensures
        (exists|i: int|
            0 <= i < watcher.stepped(event).1.len() && #[trigger] watcher.stepped(event).1[i]
                is Follow) ==> (watcher.phase == WatchPhase::Backlog && event is Ended) || (
        watcher.phase == WatchPhase::Resting && event is Rested),
        watcher.phase == WatchPhase::Backlog && event is Ended ==> {
            let actions = watcher.stepped(event).1;
            actions.len() >= 2 && actions.last() == (ActionModel::Follow { since: watcher.since })
                && actions[actions.len() - 2] == ActionModel::Send(
                EventModel::LogsReady { id: watcher.id },
            )
        },
{
}

/// A line that a replay gate has let pass does not pass again when it comes once more.
pub proof fn lines_pass_once(gate: GateModel, entry: EntryModel)
    ensures
        passed(passed(gate, seq![entry]).0, seq![entry]).1.len() == 0,
{
    let once = seq![entry];
    assert(once.drop_last() =~= Seq::empty());
    assert(once.last() == entry);
    reveal_with_fuel(passed, 2);
    remembered_lines_are_refused(gate, entry);
}

/// Lines that a gate refuses one by one leave it as it is, and none of them passes.
proof fn refused_lines_do_not_pass(gate: GateModel, entries: Seq<EntryModel>)
    requires
        forall|i: int| 0 <= i < entries.len() ==> !gate.is_new(#[trigger] entries[i]),
    ensures
        passed(gate, entries) == (gate, Seq::<EntryModel>::empty()),
    decreases entries.len(),
{
    if entries.len() > 0 {
        let rest = entries.drop_last();
        assert forall|i: int| 0 <= i < rest.len() implies !gate.is_new(#[trigger] rest[i]) by {
            assert(rest[i] == entries[i]);
        }
        refused_lines_do_not_pass(gate, rest);
        assert(entries.last() == entries[entries.len() - 1]);
    }
}

/// A backlog whose lines are stamped in order is not shown again when the followed log brings
/// all of it once more.
pub proof fn backlog_is_not_repeated(watcher: WatcherModel, entries: Seq<EntryModel>)
    requires
        stamped_in_order(entries),
    ensures
        passed(watcher.backlog_read(entries).gate, entries) == (
            watcher.backlog_read(entries).gate,
            Seq::<EntryModel>::empty(),
        ),
{
    let gate = watcher.backlog_read(entries).gate;
    assert forall|i: int| 0 <= i < entries.len() implies !gate.is_new(#[trigger] entries[i]) by {
        replayed_lines_are_refused(watcher.gate, entries, i);
    }
    refused_lines_do_not_pass(gate, entries);
}

/// Lines that are stamped later and later, all of them later than what a replay gate has seen,
/// all pass, and the last of them is what it remembers.
pub proof fn later_lines_all_pass(gate: GateModel, entries: Seq<EntryModel>)
    requires
        forall|i: int| 0 <= i < entries.len() ==> (#[trigger] entries[i]).stamp() is Some,
        forall|i: int, j: int|
            0 <= i < j < entries.len() ==> text_less(
                (#[trigger] entries[i]).stamp()->0,
                (#[trigger] entries[j]).stamp()->0,
            ),
        gate.last is Some ==> forall|i: int|
            0 <= i < entries.len() ==> text_less(
                gate.last->0,
                (#[trigger] entries[i]).stamp()->0,
            ),
    ensures
        passed(gate, entries).1 == entries,
        entries.len() > 0 ==> passed(gate, entries).0.last == entries.last().stamp(),
    decreases entries.len(),
{
    if entries.len() > 0 {
        let rest = entries.drop_last();
        let last = entries.last();
        assert(last == entries[entries.len() - 1]);
        assert forall|i: int| 0 <= i < rest.len() implies rest[i] == entries[i] by {}
        later_lines_all_pass(gate, rest);
        let before = passed(gate, rest).0;
        if rest.len() > 0 {
            assert(rest.last() == entries[rest.len() - 1]);
            later_lines_are_accepted(before, last);
        } else if gate.last is Some {
            later_lines_are_accepted(gate, last);
        }
        assert(rest.push(last) =~= entries);
    }
}

} // verus!
