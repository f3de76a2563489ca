//! Containers, their details and their log lines.

use crate::ansi::{strip_ansi, stripped};
use crate::json::{
    at_path, bool_value, elements, get, get_bool, get_i64, get_object, get_path_array_objects,
    get_path_array_strings, get_path_i64, get_path_object, get_path_string, get_string,
    get_string_array, get_string_or, get_u64, i64_value, member, members, names, objects_among,
    objects_of, text_or, text_value, texts_among, u64_value, JsonValue, Members,
};
use crate::pattern::{
    capture, first_blank, odd_date, pair_of, plain_date, regex_groups, stamp_shape,
    TIMESTAMP_PATTERN,
};
use crate::tab::DetailTab;
use crate::text::{
    case_is_all_that_changes, chars_of, concat, contains_ignoring_case, copied, copied_option,
    decimal, decimal_i64, decimal_u64, is_blank, is_text, join, joined, lowered, occurs,
    same_text, signed_decimal, string_of, text_before, text_less, text_of, text_order_is_total,
    text_order_is_transitive, texts, trim, trim_end_char, trim_start_char, trimmed, trimmed_end,
    trimmed_start, trimming_takes_any_case, uppered,
};
use vstd::prelude::*;
use vstd::string::StringExecFns;

verus! {

/// A container as the engine lists it.
#[derive(Clone, Debug, PartialEq, Eq)]
pub struct ContainerRecord {
    pub id: String,
    pub short_id: String,
    pub name: String,
    pub image: String,
    pub command: String,
    pub state: String,
    pub status: String,
    pub project: Option<String>,
    pub service: Option<String>,
    pub ports: Vec<PortMapping>,
    pub health: Option<String>,
    pub created: Option<i64>,
}

/// A port of a container and where it is published.
#[derive(Clone, Debug, PartialEq, Eq)]
pub struct PortMapping {
    pub ip: Option<String>,
    pub private_port: Option<u64>,
    pub public_port: Option<u64>,
    pub typ: Option<String>,
}

/// A row of a detail tab.
#[derive(Clone, Debug, PartialEq, Eq)]
pub struct DetailItem {
    pub label: String,
    pub value: String,
}

/// The rows of the detail tabs.
#[derive(Clone, Debug, PartialEq, Eq)]
pub struct ContainerDetails {
    pub overview: Vec<DetailItem>,
    pub env: Vec<DetailItem>,
    pub ports: Vec<DetailItem>,
    pub mounts: Vec<DetailItem>,
    pub health: Vec<DetailItem>,
}

/// How the log filter reads its query.
#[derive(Clone, Copy, Debug, PartialEq, Eq, Structural)]
pub enum LogFilterMode {
    Substring,
    Regex,
}

impl Default for LogFilterMode {
    fn default() -> (mode: Self)
        ensures
            mode == LogFilterMode::Substring,
    {
        LogFilterMode::Substring
    }
}

/// A line of a container's log.
#[derive(Clone, Debug, PartialEq, Eq)]
pub struct LogEntry {
    pub stream: String,
    pub timestamp: Option<String>,
    pub message: String,
    pub plain_message: String,
}

// ---------------------------------------------------------------------------------------------
// Views
// ---------------------------------------------------------------------------------------------

/// What a port mapping says.
#[verifier::ext_equal]
pub struct PortModel {
    pub ip: Option<Seq<char>>,
    pub private_port: Option<u64>,
    pub public_port: Option<u64>,
    pub typ: Option<Seq<char>>,
}

impl View for PortMapping {
    type V = PortModel;

    open spec fn view(&self) -> PortModel {
        PortModel {
            ip: text_of(self.ip),
            private_port: self.private_port,
            public_port: self.public_port,
            typ: text_of(self.typ),
        }
    }
}

/// What the port mappings of a list say.
pub open spec fn port_models(ports: Seq<PortMapping>) -> Seq<PortModel> {
    ports.map_values(|port: PortMapping| port@)
}

/// What a container record says.
#[verifier::ext_equal]
pub struct RecordModel {
    pub id: Seq<char>,
    pub short_id: Seq<char>,
    pub name: Seq<char>,
    pub image: Seq<char>,
    pub command: Seq<char>,
    pub state: Seq<char>,
    pub status: Seq<char>,
    pub project: Option<Seq<char>>,
    pub service: Option<Seq<char>>,
    pub ports: Seq<PortModel>,
    pub health: Option<Seq<char>>,
    pub created: Option<i64>,
}

impl View for ContainerRecord {
    type V = RecordModel;

    open spec fn view(&self) -> RecordModel {
        RecordModel {
            id: self.id@,
            short_id: self.short_id@,
            name: self.name@,
            image: self.image@,
            command: self.command@,
            state: self.state@,
            status: self.status@,
            project: text_of(self.project),
            service: text_of(self.service),
            ports: port_models(self.ports@),
            health: text_of(self.health),
            created: self.created,
        }
    }
}

impl View for DetailItem {
    type V = (Seq<char>, Seq<char>);

    open spec fn view(&self) -> (Seq<char>, Seq<char>) {
        (self.label@, self.value@)
    }
}

/// The labels and values of some rows.
pub open spec fn rows(items: Seq<DetailItem>) -> Seq<(Seq<char>, Seq<char>)> {
    items.map_values(|item: DetailItem| item@)
}

/// The labels and values of the detail tabs.
#[verifier::ext_equal]
pub struct DetailsModel {
    pub overview: Seq<(Seq<char>, Seq<char>)>,
    pub env: Seq<(Seq<char>, Seq<char>)>,
    pub ports: Seq<(Seq<char>, Seq<char>)>,
    pub mounts: Seq<(Seq<char>, Seq<char>)>,
    pub health: Seq<(Seq<char>, Seq<char>)>,
}

impl View for ContainerDetails {
    type V = DetailsModel;

    open spec fn view(&self) -> DetailsModel {
        DetailsModel {
            overview: rows(self.overview@),
            env: rows(self.env@),
            ports: rows(self.ports@),
            mounts: rows(self.mounts@),
            health: rows(self.health@),
        }
    }
}

/// What a log line says.
#[verifier::ext_equal]
pub struct EntryModel {
    pub stream: Seq<char>,
    pub timestamp: Option<Seq<char>>,
    pub message: Seq<char>,
    pub plain_message: Seq<char>,
}

impl View for LogEntry {
    type V = EntryModel;

    open spec fn view(&self) -> EntryModel {
        EntryModel {
            stream: self.stream@,
            timestamp: text_of(self.timestamp),
            message: self.message@,
            plain_message: self.plain_message@,
        }
    }
}

/// What the log lines of a list say.
pub open spec fn entry_models(entries: Seq<LogEntry>) -> Seq<EntryModel> {
    entries.map_values(|entry: LogEntry| entry@)
}

// ---------------------------------------------------------------------------------------------
// Log lines
// ---------------------------------------------------------------------------------------------

impl EntryModel {
    /// The line as it is shown: without escape sequences, behind its timestamp where timestamps
    /// are shown and it has one.
    pub open spec fn shown(self, show_timestamps: bool) -> Seq<char> {
        match self.timestamp {
            Some(timestamp) if show_timestamps => timestamp + seq![' '] + self.plain_message,
            _ => self.plain_message,
        }
    }

    /// The line as it is shown, with its escape sequences.
    pub open spec fn shown_raw(self, show_timestamps: bool) -> Seq<char> {
        match self.timestamp {
            Some(timestamp) if show_timestamps => timestamp + seq![' '] + self.message,
            _ => self.message,
        }
    }
}

/// The log line of a stream, given the line without its line feeds and the timestamp and message
/// that stand in it, if they do.
pub open spec fn entry_of(
    stream: Seq<char>,
    line: Seq<char>,
    groups: Option<(Seq<char>, Seq<char>)>,
) -> EntryModel {
    match groups {
        Some((timestamp, message)) => EntryModel {
            stream,
            timestamp: Some(timestamp),
            message,
            plain_message: stripped(message),
        },
        None => EntryModel {
            stream,
            timestamp: None,
            message: line,
            plain_message: stripped(line),
        },
    }
}

/// The log line of a stream, read with a timestamp up to its first white space.
pub open spec fn stamped_entry(stream: Seq<char>, line: Seq<char>) -> EntryModel {
    let end = first_blank(line) as int;
    entry_of(stream, line, Some((line.take(end), line.skip(end + 1))))
}

/// A line without the line feeds at its end.
pub open spec fn without_feeds(raw: Seq<char>) -> Seq<char> {
    trimmed_end(raw, |c: char| c == '\n')
}

/// The log line that a raw line of a stream is read as.
pub open spec fn entry_from(stream: Seq<char>, raw: Seq<char>) -> EntryModel {
    entry_of(
        stream,
        without_feeds(raw),
        regex_groups(TIMESTAMP_PATTERN@, "ts"@, "msg"@, without_feeds(raw)),
    )
}

/// A log line is shown as it came: where it has a timestamp, and a space behind it, that is so
/// when timestamps are shown, and a line without a timestamp is always shown as it came.
pub proof fn lines_are_shown_as_they_came(stream: Seq<char>, line: Seq<char>)
    ensures
        entry_of(stream, line, None).shown_raw(true) == line,
        entry_of(stream, line, None).shown_raw(false) == line,
        stamp_shape(line) && line[first_blank(line) as int] == ' ' ==> stamped_entry(
            stream,
            line,
        ).shown_raw(true) == line,
{
    let end = first_blank(line) as int;
    if stamp_shape(line) && line[end] == ' ' {
        assert(line.take(end) + seq![' '] + line.skip(end + 1) =~= line);
    }
}

impl LogEntry {
    /// The log line of a stream, given the line without its line feeds and the timestamp and
    /// message that stand in it, if they do.
    pub fn from_groups(stream: &str, line: &str, groups: Option<(String, String)>) -> (entry: Self)
        ensures
            entry@ == entry_of(stream@, line@, pair_of(groups)),
    {
        match groups {
            Some((timestamp, message)) => LogEntry {
                stream: copied(stream),
                timestamp: Some(timestamp),
                plain_message: strip_ansi(message.as_str()),
                message,
            },
            None => LogEntry {
                stream: copied(stream),
                timestamp: None,
                plain_message: strip_ansi(line),
                message: copied(line),
            },
        }
    }

    /// Reads a raw line of a stream: the line feeds at its end go, and a timestamp in front of it
    /// is taken off.
    pub fn parse(stream: &str, raw: &str) -> (entry: Self)
        ensures
            entry@ == entry_from(stream@, raw@),
            entry@ == entry_of(stream@, without_feeds(raw@), None) || entry@ == stamped_entry(
                stream@,
                without_feeds(raw@),
            ),
            stamp_shape(without_feeds(raw@)) && plain_date(without_feeds(raw@)) ==> entry@
                == stamped_entry(stream@, without_feeds(raw@)),
            !(stamp_shape(without_feeds(raw@)) && odd_date(without_feeds(raw@))) ==> entry@
                == entry_of(stream@, without_feeds(raw@), None),
    {
        let line = trim_end_char(raw, '\n');
        let groups = capture(TIMESTAMP_PATTERN, "ts", "msg", line.as_str());
        proof {
            assert(line@ == without_feeds(raw@));
        }
        LogEntry::from_groups(stream, line.as_str(), groups)
    }

    /// The line as it is shown, without escape sequences.
    pub fn display(&self, show_timestamps: bool) -> (text: String)
        ensures
            text@ == self@.shown(show_timestamps),
    {
        match &self.timestamp {
            Some(timestamp) if show_timestamps => {
                let mut text = copied(timestamp.as_str());
                text.push(' ');
                text.append(self.plain_message.as_str());
                proof {
                    assert(text@ =~= timestamp@ + seq![' '] + self.plain_message@);
                }
                text
            },
            _ => copied(self.plain_message.as_str()),
        }
    }

    /// The line as it is shown, with its escape sequences.
    pub fn display_raw(&self, show_timestamps: bool) -> (text: String)
        ensures
            text@ == self@.shown_raw(show_timestamps),
    {
        match &self.timestamp {
            Some(timestamp) if show_timestamps => {
                let mut text = copied(timestamp.as_str());
                text.push(' ');
                text.append(self.message.as_str());
                proof {
                    assert(text@ =~= timestamp@ + seq![' '] + self.message@);
                }
                text
            },
            _ => copied(self.message.as_str()),
        }
    }
}

// ---------------------------------------------------------------------------------------------
// Containers
// ---------------------------------------------------------------------------------------------

/// Why a container summary cannot be read.
#[derive(Clone, Copy, Debug, PartialEq, Eq, Structural)]
pub enum SummaryError {
    /// The summary is no JSON object.
    NotAnObject,
}

impl SummaryError {
    /// The error in words.
    pub fn message(self) -> (text: &'static str)
        ensures
            text@ == "container summary must be a JSON object"@,
    {
        match self {
            SummaryError::NotAnObject => "container summary must be a JSON object",
        }
    }
}

/// The first twelve characters of an identifier.
pub open spec fn shortened(id: Seq<char>) -> Seq<char> {
    if id.len() <= 12 {
        id
    } else {
        id.take(12)
    }
}

/// The first twelve characters of an identifier.
pub fn short_id(id: &str) -> (short: String)
    ensures
        short@ == shortened(id@),
{
    let chars = chars_of(id);
    let end: usize = if chars.len() <= 12 { chars.len() } else { 12 };
    let short = string_of(&chars, 0, end);
    proof {
        assert(short@ =~= shortened(id@));
    }
    short
}

/// The first of some texts that is not blank.
pub open spec fn first_filled(texts: Seq<Seq<char>>) -> Option<Seq<char>>
    decreases texts.len(),
{
    if texts.len() == 0 {
        None
    } else if trimmed(texts[0]).len() > 0 {
        Some(texts[0])
    } else {
        first_filled(texts.skip(1))
    }
}

/// A text that is not empty.
pub open spec fn filled(text: Option<Seq<char>>) -> Option<Seq<char>> {
    match text {
        Some(s) if s.len() > 0 => Some(s),
        _ => None,
    }
}

/// The label called `key` of a container summary, where it is a text and not empty.
pub open spec fn label_of(object: Seq<(String, JsonValue)>, key: Seq<char>) -> Option<Seq<char>> {
    match members(member(object, "Labels"@)) {
        Some(labels) => filled(text_value(member(labels, key))),
        None => None,
    }
}

/// The port mapping that an object describes.
pub open spec fn port_of(port: Seq<(String, JsonValue)>) -> PortModel {
    PortModel {
        ip: text_value(member(port, "IP"@)),
        private_port: u64_value(member(port, "PrivatePort"@)),
        public_port: u64_value(member(port, "PublicPort"@)),
        typ: text_value(member(port, "Type"@)),
    }
}

/// The identifier of a container summary.
pub open spec fn summary_id(object: Seq<(String, JsonValue)>) -> Seq<char> {
    text_or(text_value(member(object, "Id"@)), "unknown"@)
}

/// The container that a summary object describes.
pub open spec fn summary_record(object: Seq<(String, JsonValue)>) -> RecordModel {
    RecordModel {
        id: summary_id(object),
        short_id: shortened(summary_id(object)),
        name: match first_filled(texts_among(elements(member(object, "Names"@)))) {
            Some(name) => trimmed_start(name, |c: char| c == '/'),
            None => shortened(summary_id(object)),
        },
        image: text_or(text_value(member(object, "Image"@)), "<unknown>"@),
        command: text_or(text_value(member(object, "Command"@)), ""@),
        state: text_or(text_value(member(object, "State"@)), "unknown"@),
        status: text_or(text_value(member(object, "Status"@)), "unknown"@),
        project: label_of(object, "com.docker.compose.project"@),
        service: label_of(object, "com.docker.compose.service"@),
        ports: objects_among(elements(member(object, "Ports"@))).map_values(
            |port: Members| port_of(port@),
        ),
        health: None,
        created: i64_value(member(object, "Created"@)),
    }
}

/// The states in which a container counts as running.
pub open spec fn running_state(state: Seq<char>) -> bool {
    state == "running"@ || state == "restarting"@ || state == "paused"@ || state == "created"@
}

impl RecordModel {
    /// The container is in one of the states that count as running.
    pub open spec fn running(self) -> bool {
        running_state(self.state)
    }

    /// The container answers to a query: the query is blank, or it stands, whatever the case of
    /// ASCII letters, in one of the fields that name the container.
    pub open spec fn matches(self, query: Seq<char>) -> bool {
        let q = lowered(query);
        ||| trimmed(query).len() == 0
        ||| occurs(lowered(self.id), q)
        ||| occurs(lowered(self.short_id), q)
        ||| occurs(lowered(self.name), q)
        ||| occurs(lowered(self.image), q)
        ||| occurs(lowered(self.command), q)
        ||| occurs(lowered(text_or(self.project, ""@)), q)
        ||| occurs(lowered(text_or(self.service, ""@)), q)
    }

    /// The ports in one line.
    pub open spec fn ports_line(self) -> Seq<char> {
        if self.ports.len() == 0 {
            "-"@
        } else {
            joined(self.ports.map_values(|port: PortModel| port.shown()), ", "@)
        }
    }
}

/// A container answers to a query whatever the case of the letters of the query.
pub proof fn queries_take_any_case(record: RecordModel, query: Seq<char>, other: Seq<char>)
    requires
        lowered(other) == lowered(query),
    ensures
        record.matches(other) == record.matches(query),
        record.matches(uppered(query)) == record.matches(query),
{
    trimming_takes_any_case(query);
    trimming_takes_any_case(other);
    trimming_takes_any_case(uppered(query));
    case_is_all_that_changes(query);
    assert(trimmed(query).len() == lowered(trimmed(query)).len());
    assert(trimmed(other).len() == lowered(trimmed(other)).len());
    assert(trimmed(uppered(query)).len() == lowered(trimmed(uppered(query))).len());
}

impl PortModel {
    /// The port as it is shown: where it is published, or that it is not.
    pub open spec fn shown(self) -> Seq<char> {
        let protocol = text_or(self.typ, "tcp"@);
        match (self.public_port, self.private_port) {
            (Some(public), Some(private)) => text_or(filled(self.ip), "0.0.0.0"@) + ":"@ + decimal(
                public as nat,
            ) + "->"@ + decimal(private as nat) + "/"@ + protocol,
            (None, Some(private)) => decimal(private as nat) + "/"@ + protocol,
            _ => "-"@,
        }
    }
}

impl PortMapping {
    /// The port as it is shown.
    pub fn display(&self) -> (text: String)
        ensures
            text@ == self@.shown(),
    {
        match (self.public_port, self.private_port) {
            (Some(public), Some(private)) => {
                let mut text = match &self.ip {
                    Some(ip) if !ip.as_str().is_empty() => copied(ip.as_str()),
                    _ => copied("0.0.0.0"),
                };
                text.append(":");
                let public_digits = decimal_u64(public);
                text.append(public_digits.as_str());
                text.append("->");
                let private_digits = decimal_u64(private);
                text.append(private_digits.as_str());
                text.append("/");
                match &self.typ {
                    Some(typ) => text.append(typ.as_str()),
                    None => text.append("tcp"),
                }
                text
            },
            (None, Some(private)) => {
                let mut text = decimal_u64(private);
                text.append("/");
                match &self.typ {
                    Some(typ) => text.append(typ.as_str()),
                    None => text.append("tcp"),
                }
                text
            },
            _ => copied("-"),
        }
    }
}

/// The port mappings of the member called `key`.
fn get_ports(object: &Members, key: &str) -> (ports: Vec<PortMapping>)
    ensures
        port_models(ports@) == objects_among(elements(member(object@, key@))).map_values(
            |port: Members| port_of(port@),
        ),
{
    let mut ports: Vec<PortMapping> = Vec::new();
    let found = get(object, key);
    let objects: Vec<&Members> = match found {
        Some(JsonValue::Array(values)) => objects_of(values),
        _ => Vec::new(),
    };
    let ghost expected = objects_among(elements(member(object@, key@)));
    proof {
        assert(objects@.unref() =~= expected);
    }
    let mut i: usize = 0;
    while i < objects.len()
        invariant
            i <= objects@.len(),
            objects@.unref() == expected,
            ports@.len() == i,
            forall|j: int| 0 <= j < i ==> (#[trigger] ports@[j])@ == port_of(expected[j]@),
        decreases objects@.len() - i,
    {
        let port = objects[i];
        proof {
            assert(objects@.unref()[i as int] == *objects@[i as int]);
        }
        ports.push(
            PortMapping {
                ip: get_string(port, "IP"),
                private_port: get_u64(port, "PrivatePort"),
                public_port: get_u64(port, "PublicPort"),
                typ: get_string(port, "Type"),
            },
        );
        i += 1;
    }
    proof {
        assert(port_models(ports@) =~= expected.map_values(|port: Members| port_of(port@)));
    }
    ports
}

/// The label called `key` of a container summary, where it is a text and not empty.
fn get_label(object: &Members, key: &str) -> (label: Option<String>)
    ensures
        text_of(label) == label_of(object@, key@),
{
    match get_object(object, "Labels") {
        Some(labels) => match get_string(labels, key) {
            Some(text) => if text.as_str().is_empty() {
                None
            } else {
                Some(text)
            },
            None => None,
        },
        None => None,
    }
}

/// The first of some strings that is not blank.
fn find_filled(values: &Vec<String>) -> (found: Option<String>)
    ensures
        text_of(found) == first_filled(texts(values@)),
{
    let mut i: usize = 0;
    proof {
        assert(texts(values@).skip(0) =~= texts(values@));
    }
    while i < values.len()
        invariant
            i <= values@.len(),
            first_filled(texts(values@)) == first_filled(texts(values@).skip(i as int)),
        decreases values@.len() - i,
    {
        proof {
            assert(texts(values@).skip(i as int).skip(1) =~= texts(values@).skip(i + 1));
            assert(texts(values@).skip(i as int)[0] == values@[i as int]@);
        }
        if !is_blank(values[i].as_str()) {
            return Some(copied(values[i].as_str()));
        }
        i += 1;
    }
    None
}

impl ContainerRecord {
    /// The container that a summary describes. A summary that is no JSON object is refused.
    pub fn from_summary_value(value: JsonValue) -> (result: Result<Self, SummaryError>)
        ensures
            match result {
                Ok(record) => value matches JsonValue::Object(object) && record@ == summary_record(
                    object@,
                ),
                Err(error) => !(value is Object) && error == SummaryError::NotAnObject,
            },
    {
        let object = match &value {
            JsonValue::Object(object) => object,
            _ => {
                return Err(SummaryError::NotAnObject);
            },
        };
        let id = get_string_or(object, "Id", "unknown");
        let names = get_string_array(object, "Names");
        let name = match find_filled(&names) {
            Some(name) => trim_start_char(name.as_str(), '/'),
            None => short_id(id.as_str()),
        };
        Ok(
            ContainerRecord {
                short_id: short_id(id.as_str()),
                id,
                name,
                image: get_string_or(object, "Image", "<unknown>"),
                command: get_string_or(object, "Command", ""),
                state: get_string_or(object, "State", "unknown"),
                status: get_string_or(object, "Status", "unknown"),
                project: get_label(object, "com.docker.compose.project"),
                service: get_label(object, "com.docker.compose.service"),
                ports: get_ports(object, "Ports"),
                health: None,
                created: get_i64(object, "Created"),
            },
        )
    }

    /// Whether the container answers to a query.
    pub fn matches_query(&self, query: &str) -> (b: bool)
        ensures
            b == self@.matches(query@),
    {
        is_blank(query) || contains_ignoring_case(self.id.as_str(), query)
            || contains_ignoring_case(self.short_id.as_str(), query) || contains_ignoring_case(
            self.name.as_str(),
            query,
        ) || contains_ignoring_case(self.image.as_str(), query) || contains_ignoring_case(
            self.command.as_str(),
            query,
        ) || contains_ignoring_case(option_str(&self.project, ""), query) || contains_ignoring_case(
            option_str(&self.service, ""),
            query,
        )
    }

    /// Whether the container is in one of the states that count as running.
    pub fn is_running(&self) -> (b: bool)
        ensures
            b == self@.running(),
    {
        let state = self.state.as_str();
        same_text(state, "running") || same_text(state, "restarting") || same_text(state, "paused")
            || same_text(state, "created")
    }

    /// The ports in one line.
    pub fn ports_summary(&self) -> (text: String)
        ensures
            text@ == self@.ports_line(),
    {
        if self.ports.len() == 0 {
            return copied("-");
        }
        let mut parts: Vec<String> = Vec::new();
        let mut i: usize = 0;
        while i < self.ports.len()
            invariant
                i <= self.ports@.len(),
                parts@.len() == i,
                forall|j: int| 0 <= j < i ==> (#[trigger] parts@[j])@ == self.ports@[j]@.shown(),
            decreases self.ports@.len() - i,
        {
            parts.push(self.ports[i].display());
            i += 1;
        }
        proof {
            assert(texts(parts@) =~= self@.ports.map_values(|port: PortModel| port.shown()));
        }
        join(&parts, ", ")
    }

    /// The health of the container, or a dash.
    pub fn health_label(&self) -> (text: &str)
        ensures
            text@ == text_or(self@.health, "-"@),
    {
        option_str(&self.health, "-")
    }
}

/// The characters of an optional string, or others where there is none.
pub fn option_str<'a>(value: &'a Option<String>, default: &'a str) -> (text: &'a str)
    ensures
        text@ == text_or(text_of(*value), default@),
{
    match value {
        Some(s) => s.as_str(),
        None => default,
    }
}

// ---------------------------------------------------------------------------------------------
// Details
// ---------------------------------------------------------------------------------------------

/// The position of the first `c` in a text, or its length.
pub open spec fn first_index(s: Seq<char>, c: char) -> nat
    decreases s.len(),
{
    if s.len() == 0 || s[0] == c {
        0
    } else {
        1 + first_index(s.skip(1), c)
    }
}

/// The two sides of the first equals sign of an environment entry; an entry without one is a name
/// without a value.
pub open spec fn env_row(raw: Seq<char>) -> (Seq<char>, Seq<char>) {
    let at = first_index(raw, '=') as int;
    if at < raw.len() {
        (raw.take(at), raw.skip(at + 1))
    } else {
        (raw, Seq::empty())
    }
}

/// Where a port is published, in the words of one binding.
pub open spec fn binding_text(binding: Seq<(String, JsonValue)>) -> Seq<char> {
    text_or(text_value(member(binding, "HostIp"@)), "0.0.0.0"@) + ":"@ + text_or(
        text_value(member(binding, "HostPort"@)),
        "?"@,
    )
}

/// Where a port is published.
pub open spec fn bindings_text(bindings: JsonValue) -> Seq<char> {
    match bindings {
        JsonValue::Array(values) if values@.len() > 0 => joined(
            objects_among(values@).map_values(|binding: Members| binding_text(binding@)),
            ", "@,
        ),
        _ => "not published"@,
    }
}

/// Rows in the order of their labels with one more row, which takes the place of a row of its
/// label.
pub open spec fn with_row(
    rows: Seq<(Seq<char>, Seq<char>)>,
    label: Seq<char>,
    value: Seq<char>,
) -> Seq<(Seq<char>, Seq<char>)>
    decreases rows.len(),
{
    if rows.len() == 0 {
        seq![(label, value)]
    } else if rows[0].0 == label {
        seq![(label, value)] + rows.skip(1)
    } else if text_less(label, rows[0].0) {
        seq![(label, value)] + rows
    } else {
        seq![rows[0]] + with_row(rows.skip(1), label, value)
    }
}

/// The rows of the published ports, in the order of the ports.
pub open spec fn port_rows(ports: Seq<(String, JsonValue)>) -> Seq<(Seq<char>, Seq<char>)>
    decreases ports.len(),
{
    if ports.len() == 0 {
        Seq::empty()
    } else {
        with_row(port_rows(ports.drop_last()), ports.last().0@, bindings_text(ports.last().1))
    }
}

/// Some rows, or one row that says that there are none.
pub open spec fn rows_or(
    rows: Seq<(Seq<char>, Seq<char>)>,
    label: Seq<char>,
    value: Seq<char>,
) -> Seq<(Seq<char>, Seq<char>)> {
    if rows.len() == 0 {
        seq![(label, value)]
    } else {
        rows
    }
}

/// The rows of the ports tab.
pub open spec fn ports_tab(object: Seq<(String, JsonValue)>) -> Seq<(Seq<char>, Seq<char>)> {
    rows_or(
        match members(at_path(object, seq!["NetworkSettings"@, "Ports"@])) {
            Some(ports) => port_rows(ports),
            None => Seq::empty(),
        },
        "Ports"@,
        "No published ports"@,
    )
}

/// The row of one mount.
pub open spec fn mount_row(mount: Seq<(String, JsonValue)>) -> (Seq<char>, Seq<char>) {
    (
        text_or(text_value(member(mount, "Destination"@)), "?"@),
        text_or(text_value(member(mount, "Type"@)), "mount"@) + " "@ + text_or(
            text_value(member(mount, "Source"@)),
            "<anonymous>"@,
        ) + " ("@ + (match bool_value(member(mount, "RW"@)) {
            Some(true) => "rw"@,
            Some(false) => "ro"@,
            None => "?"@,
        }) + ")"@,
    )
}

/// The rows of the mounts tab.
pub open spec fn mounts_tab(object: Seq<(String, JsonValue)>) -> Seq<(Seq<char>, Seq<char>)> {
    rows_or(
        objects_among(elements(at_path(object, seq!["Mounts"@]))).map_values(
            |mount: Members| mount_row(mount@),
        ),
        "Mounts"@,
        "No mounts"@,
    )
}

/// The row of one health check.
pub open spec fn check_row(entry: Seq<(String, JsonValue)>) -> (Seq<char>, Seq<char>) {
    (
        "Log "@ + text_or(text_value(member(entry, "ExitCode"@)), "exit"@),
        trimmed(text_or(text_value(member(entry, "Output"@)), ""@)),
    )
}

/// The last three of some objects.
pub open spec fn last_three(objects: Seq<Members>) -> Seq<Members> {
    if objects.len() <= 3 {
        objects
    } else {
        objects.skip(objects.len() - 3)
    }
}

/// One row for a text, none where there is none.
pub open spec fn optional_row(label: Seq<char>, value: Option<Seq<char>>) -> Seq<
    (Seq<char>, Seq<char>),
> {
    match value {
        Some(text) => seq![(label, text)],
        None => Seq::empty(),
    }
}

/// The rows of the health tab.
pub open spec fn health_tab(object: Seq<(String, JsonValue)>) -> Seq<(Seq<char>, Seq<char>)> {
    rows_or(
        optional_row(
            "Status"@,
            text_value(at_path(object, seq!["State"@, "Health"@, "Status"@])),
        ) + optional_row(
            "Failing streak"@,
            match i64_value(at_path(object, seq!["State"@, "Health"@, "FailingStreak"@])) {
                Some(streak) => Some(signed_decimal(streak as int)),
                None => None,
            },
        ) + last_three(
            objects_among(elements(at_path(object, seq!["State"@, "Health"@, "Log"@]))),
        ).map_values(|entry: Members| check_row(entry@)),
        "Health"@,
        "No health check"@,
    )
}

/// The rows of the overview tab.
pub open spec fn overview_tab(
    summary: RecordModel,
    object: Seq<(String, JsonValue)>,
) -> Seq<(Seq<char>, Seq<char>)> {
    seq![
        ("Name"@, summary.name),
        ("ID"@, summary.id),
        ("Image"@, summary.image),
        ("State"@, summary.state),
        ("Status"@, summary.status),
    ] + optional_row("Project"@, summary.project) + optional_row("Service"@, summary.service)
        + optional_row("Command"@, filled(Some(summary.command))) + optional_row(
        "Started"@,
        text_value(at_path(object, seq!["State"@, "StartedAt"@])),
    ) + optional_row("Created"@, text_value(member(object, "Created"@)))
}

/// The details that an inspection describes.
pub open spec fn inspect_details(
    summary: RecordModel,
    object: Seq<(String, JsonValue)>,
) -> DetailsModel {
    DetailsModel {
        overview: overview_tab(summary, object),
        env: texts_among(elements(at_path(object, seq!["Config"@, "Env"@]))).map_values(
            |raw: Seq<char>| env_row(raw),
        ),
        ports: ports_tab(object),
        mounts: mounts_tab(object),
        health: health_tab(object),
    }
}

/// Details without any row.
pub open spec fn no_details() -> DetailsModel {
    DetailsModel {
        overview: Seq::empty(),
        env: Seq::empty(),
        ports: Seq::empty(),
        mounts: Seq::empty(),
        health: Seq::empty(),
    }
}

/// Puts a row behind others.
fn push_row(items: &mut Vec<DetailItem>, label: String, value: String)
    ensures
        rows(final(items)@) == rows(old(items)@).push((label@, value@)),
{
    let ghost before = rows(items@);
    let ghost added = (label@, value@);
    items.push(DetailItem { label, value });
    proof {
        assert(rows(items@) =~= before.push(added));
    }
}

/// Puts a row behind others where there is a text for it.
fn push_optional(items: &mut Vec<DetailItem>, label: &str, value: Option<String>)
    ensures
        rows(final(items)@) == rows(old(items)@) + optional_row(label@, text_of(value)),
{
    let ghost before = rows(items@);
    let ghost text = text_of(value);
    match value {
        Some(value) => push_row(items, copied(label), value),
        None => {},
    }
    proof {
        assert(rows(items@) =~= before + optional_row(label@, text));
    }
}

/// The two sides of the first equals sign of an environment entry.
fn split_env(raw: &str) -> (pair: (String, String))
    ensures
        (pair.0@, pair.1@) == env_row(raw@),
{
    let chars = chars_of(raw);
    let mut at: usize = 0;
    proof {
        assert(chars@.skip(0) =~= chars@);
    }
    while at < chars.len() && chars[at] != '='
        invariant
            at <= chars@.len(),
            first_index(chars@, '=') == at + first_index(chars@.skip(at as int), '='),
        decreases chars@.len() - at,
    {
        proof {
            assert(chars@.skip(at as int).skip(1) =~= chars@.skip(at + 1));
        }
        at += 1;
    }
    if at < chars.len() {
        let label = string_of(&chars, 0, at);
        let value = string_of(&chars, at + 1, chars.len());
        proof {
            assert(label@ =~= raw@.take(at as int));
            assert(value@ =~= raw@.skip(at + 1));
        }
        (label, value)
    } else {
        let value = String::new();
        proof {
            assert(value@ =~= Seq::<char>::empty());
        }
        (copied(raw), value)
    }
}

/// The rows of the environment tab.
fn extract_env(object: &Members) -> (items: Vec<DetailItem>)
    ensures
        rows(items@) == texts_among(
            elements(at_path(object@, seq!["Config"@, "Env"@])),
        ).map_values(|raw: Seq<char>| env_row(raw)),
{
    let path = ["Config", "Env"];
    proof {
        assert(names(path@) =~= seq!["Config"@, "Env"@]);
    }
    let entries = get_path_array_strings(object, &path);
    let ghost expected = texts_among(elements(at_path(object@, seq!["Config"@, "Env"@])));
    let mut items: Vec<DetailItem> = Vec::new();
    let mut i: usize = 0;
    while i < entries.len()
        invariant
            i <= entries@.len(),
            texts(entries@) == expected,
            items@.len() == i,
            forall|j: int| 0 <= j < i ==> (#[trigger] items@[j])@ == env_row(expected[j]),
        decreases entries@.len() - i,
    {
        proof {
            assert(texts(entries@)[i as int] == entries@[i as int]@);
        }
        let (label, value) = split_env(entries[i].as_str());
        items.push(DetailItem { label, value });
        i += 1;
    }
    proof {
        assert(rows(items@) =~= expected.map_values(|raw: Seq<char>| env_row(raw)));
    }
    items
}

/// Puts a row in its place among rows in the order of their labels.
fn insert_row(items: &mut Vec<DetailItem>, label: String, value: String)
    ensures
        rows(final(items)@) == with_row(rows(old(items)@), label@, value@),
{
    let ghost before = rows(items@);
    let ghost key = label@;
    let ghost text = value@;
    let mut i: usize = 0;
    proof {
        assert(before.skip(0) =~= before);
        assert(before.take(0) + with_row(before, key, text) =~= with_row(before, key, text));
    }
    while i < items.len() && !same_text(items[i].label.as_str(), label.as_str()) && !text_before(
        label.as_str(),
        items[i].label.as_str(),
    )
        invariant
            i <= items@.len(),
            rows(items@) == before,
            key == label@,
            with_row(before, key, text) == before.take(i as int) + with_row(
                before.skip(i as int),
                key,
                text,
            ),
        decreases items@.len() - i,
    {
        let ghost rest = before.skip(i as int);
        proof {
            assert(rest[0] == items@[i as int]@);
            assert(rest.skip(1) =~= before.skip(i + 1));
        }
        proof {
            assert(before.take(i as int) + (seq![rest[0]] + with_row(rest.skip(1), key, text))
                =~= before.take(i + 1) + with_row(rest.skip(1), key, text));
        }
        i += 1;
    }
    let ghost rest = before.skip(i as int);
    proof {
        assert(i < items@.len() ==> rest[0] == items@[i as int]@);
    }
    if i < items.len() && same_text(items[i].label.as_str(), label.as_str()) {
        items.remove(i);
        proof {
            assert(before.take(i as int) + (seq![(key, text)] + rest.skip(1)) =~= before.remove(
                i as int,
            ).insert(i as int, (key, text)));
        }
    } else {
        proof {
            assert(before.take(i as int) + (seq![(key, text)] + rest) =~= before.insert(
                i as int,
                (key, text),
            ));
        }
    }
    items.insert(i, DetailItem { label, value });
    proof {
        assert(rows(items@) =~= with_row(before, key, text));
    }
}

/// Where a port is published.
fn describe_bindings(bindings: &JsonValue) -> (text: String)
    ensures
        text@ == bindings_text(*bindings),
{
    match bindings {
        JsonValue::Array(values) if values.len() > 0 => {
            let objects = objects_of(values);
            let ghost expected = objects_among(values@);
            let mut parts: Vec<String> = Vec::new();
            let mut i: usize = 0;
            while i < objects.len()
                invariant
                    i <= objects@.len(),
                    objects@.unref() == expected,
                    parts@.len() == i,
                    forall|j: int|
                        0 <= j < i ==> (#[trigger] parts@[j])@ == binding_text(expected[j]@),
                decreases objects@.len() - i,
            {
                proof {
                    assert(objects@.unref()[i as int] == *objects@[i as int]);
                }
                let mut part = get_string_or(objects[i], "HostIp", "0.0.0.0");
                part.append(":");
                let port = get_string_or(objects[i], "HostPort", "?");
                part.append(port.as_str());
                parts.push(part);
                i += 1;
            }
            proof {
                assert(texts(parts@) =~= expected.map_values(
                    |binding: Members| binding_text(binding@),
                ));
            }
            join(&parts, ", ")
        },
        _ => copied("not published"),
    }
}

/// Some rows, or one row that says that there are none.
fn items_or(items: Vec<DetailItem>, label: &str, value: &str) -> (result: Vec<DetailItem>)
    ensures
        rows(result@) == rows_or(rows(items@), label@, value@),
{
    if items.len() == 0 {
        let mut result: Vec<DetailItem> = Vec::new();
        push_row(&mut result, copied(label), copied(value));
        proof {
            assert(rows(result@) =~= seq![(label@, value@)]);
        }
        result
    } else {
        items
    }
}

/// The rows of the ports tab.
fn extract_inspect_ports(object: &Members) -> (items: Vec<DetailItem>)
    ensures
        rows(items@) == ports_tab(object@),
{
    let path = ["NetworkSettings", "Ports"];
    proof {
        assert(names(path@) =~= seq!["NetworkSettings"@, "Ports"@]);
    }
    let mut items: Vec<DetailItem> = Vec::new();
    match get_path_object(object, &path) {
        Some(ports) => {
            let mut i: usize = 0;
            proof {
                assert(rows(items@) =~= port_rows(ports@.take(0)));
            }
            while i < ports.len()
                invariant
                    i <= ports@.len(),
                    rows(items@) == port_rows(ports@.take(i as int)),
                decreases ports@.len() - i,
            {
                proof {
                    assert(ports@.take(i + 1).drop_last() =~= ports@.take(i as int));
                    assert(ports@.take(i + 1).last() == ports@[i as int]);
                }
                let value = describe_bindings(&ports[i].1);
                insert_row(&mut items, copied(ports[i].0.as_str()), value);
                i += 1;
            }
            proof {
                assert(ports@.take(i as int) =~= ports@);
            }
        },
        None => {
            proof {
                assert(rows(items@) =~= Seq::<(Seq<char>, Seq<char>)>::empty());
            }
        },
    }
    items_or(items, "Ports", "No published ports")
}

/// The row of one mount.
fn mount_item(mount: &Members) -> (item: DetailItem)
    ensures
        item@ == mount_row(mount@),
{
    let mut value = get_string_or(mount, "Type", "mount");
    value.append(" ");
    let source = get_string_or(mount, "Source", "<anonymous>");
    value.append(source.as_str());
    value.append(" (");
    match get_bool(mount, "RW") {
        Some(true) => value.append("rw"),
        Some(false) => value.append("ro"),
        None => value.append("?"),
    }
    value.append(")");
    DetailItem { label: get_string_or(mount, "Destination", "?"), value }
}

/// The rows of the mounts tab.
fn extract_mounts(object: &Members) -> (items: Vec<DetailItem>)
    ensures
        rows(items@) == mounts_tab(object@),
{
    let path = ["Mounts"];
    proof {
        assert(names(path@) =~= seq!["Mounts"@]);
    }
    let mounts = get_path_array_objects(object, &path);
    let ghost expected = objects_among(elements(at_path(object@, seq!["Mounts"@])));
    let mut items: Vec<DetailItem> = Vec::new();
    let mut i: usize = 0;
    while i < mounts.len()
        invariant
            i <= mounts@.len(),
            mounts@.unref() == expected,
            items@.len() == i,
            forall|j: int| 0 <= j < i ==> (#[trigger] items@[j])@ == mount_row(expected[j]@),
        decreases mounts@.len() - i,
    {
        proof {
            assert(mounts@.unref()[i as int] == *mounts@[i as int]);
        }
        items.push(mount_item(mounts[i]));
        i += 1;
    }
    proof {
        assert(rows(items@) =~= expected.map_values(|mount: Members| mount_row(mount@)));
    }
    items_or(items, "Mounts", "No mounts")
}

/// The row of one health check.
fn check_item(entry: &Members) -> (item: DetailItem)
    ensures
        item@ == check_row(entry@),
{
    let code = get_string_or(entry, "ExitCode", "exit");
    let output = get_string_or(entry, "Output", "");
    DetailItem { label: concat("Log ", code.as_str()), value: trim(output.as_str()) }
}

/// The rows of the health tab.
fn extract_health(object: &Members) -> (items: Vec<DetailItem>)
    ensures
        rows(items@) == health_tab(object@),
{
    let status_path = ["State", "Health", "Status"];
    let streak_path = ["State", "Health", "FailingStreak"];
    let log_path = ["State", "Health", "Log"];
    proof {
        assert(names(status_path@) =~= seq!["State"@, "Health"@, "Status"@]);
        assert(names(streak_path@) =~= seq!["State"@, "Health"@, "FailingStreak"@]);
        assert(names(log_path@) =~= seq!["State"@, "Health"@, "Log"@]);
    }
    let mut items: Vec<DetailItem> = Vec::new();
    proof {
        assert(rows(items@) =~= Seq::<(Seq<char>, Seq<char>)>::empty());
    }
    push_optional(&mut items, "Status", get_path_string(object, &status_path));
    let streak = match get_path_i64(object, &streak_path) {
        Some(streak) => Some(decimal_i64(streak)),
        None => None,
    };
    push_optional(&mut items, "Failing streak", streak);
    let ghost before = rows(items@);
    let logs = get_path_array_objects(object, &log_path);
    let ghost expected = objects_among(
        elements(at_path(object@, seq!["State"@, "Health"@, "Log"@])),
    );
    let start: usize = if logs.len() <= 3 { 0 } else { logs.len() - 3 };
    let ghost recent = last_three(expected);
    proof {
        assert(recent =~= expected.skip(start as int));
        assert(rows(items@) =~= before + recent.map_values(
            |entry: Members| check_row(entry@),
        ).take(0));
    }
    let mut i: usize = start;
    while i < logs.len()
        invariant
            start <= i <= logs@.len(),
            logs@.unref() == expected,
            recent == expected.skip(start as int),
            rows(items@) == before + recent.map_values(|entry: Members| check_row(entry@)).take(
                i - start,
            ),
        decreases logs@.len() - i,
    {
        let item = check_item(logs[i]);
        let ghost earlier = rows(items@);
        let ghost added = item@;
        items.push(item);
        proof {
            assert(logs@.unref()[i as int] == *logs@[i as int]);
            assert(rows(items@) =~= earlier.push(added));
            assert(rows(items@) =~= before + recent.map_values(
                |entry: Members| check_row(entry@),
            ).take(i + 1 - start));
        }
        i += 1;
    }
    proof {
        let all = recent.map_values(|entry: Members| check_row(entry@));
        assert(all.take(i - start) =~= all);
    }
    items_or(items, "Health", "No health check")
}

/// The rows of the overview tab.
fn overview_items(summary: &ContainerRecord, object: &Members) -> (items: Vec<DetailItem>)
    ensures
        rows(items@) == overview_tab(summary@, object@),
{
    let started_path = ["State", "StartedAt"];
    proof {
        assert(names(started_path@) =~= seq!["State"@, "StartedAt"@]);
    }
    let mut items: Vec<DetailItem> = Vec::new();
    push_row(&mut items, copied("Name"), copied(summary.name.as_str()));
    push_row(&mut items, copied("ID"), copied(summary.id.as_str()));
    push_row(&mut items, copied("Image"), copied(summary.image.as_str()));
    push_row(&mut items, copied("State"), copied(summary.state.as_str()));
    push_row(&mut items, copied("Status"), copied(summary.status.as_str()));
    proof {
        assert(rows(items@) =~= seq![
            ("Name"@, summary@.name),
            ("ID"@, summary@.id),
            ("Image"@, summary@.image),
            ("State"@, summary@.state),
            ("Status"@, summary@.status),
        ]);
    }
    push_optional(&mut items, "Project", copied_option(&summary.project));
    push_optional(&mut items, "Service", copied_option(&summary.service));
    let command = if summary.command.as_str().is_empty() {
        None
    } else {
        Some(copied(summary.command.as_str()))
    };
    push_optional(&mut items, "Command", command);
    push_optional(&mut items, "Started", get_path_string(object, &started_path));
    push_optional(&mut items, "Created", get_string(object, "Created"));
    items
}

impl Default for ContainerDetails {
    fn default() -> (details: Self)
        ensures
            details@ == no_details(),
    {
        let details = ContainerDetails {
            overview: Vec::new(),
            env: Vec::new(),
            ports: Vec::new(),
            mounts: Vec::new(),
            health: Vec::new(),
        };
        proof {
            assert(details@ =~= no_details());
        }
        details
    }
}

/// The rows that a tab shows. The log tab has no rows of its own and stands for the overview.
pub open spec fn tab_rows(details: ContainerDetails, tab: DetailTab) -> Seq<DetailItem> {
    match tab {
        DetailTab::Overview => details.overview@,
        DetailTab::Env => details.env@,
        DetailTab::Ports => details.ports@,
        DetailTab::Mounts => details.mounts@,
        DetailTab::Health => details.health@,
        DetailTab::Logs => details.overview@,
    }
}

impl ContainerDetails {
    /// The details of a container, given its record and what an inspection says of it. An
    /// inspection that is no JSON object gives no rows.
    pub fn from_inspect_value(summary: &ContainerRecord, value: JsonValue) -> (details: Self)
        ensures
            details@ == (match value {
                JsonValue::Object(object) => inspect_details(summary@, object@),
                _ => no_details(),
            }),
    {
        match &value {
            JsonValue::Object(object) => ContainerDetails {
                overview: overview_items(summary, object),
                env: extract_env(object),
                ports: extract_inspect_ports(object),
                mounts: extract_mounts(object),
                health: extract_health(object),
            },
            _ => ContainerDetails::default(),
        }
    }

    /// The rows that a tab shows.
    pub fn items_for_tab(&self, tab: DetailTab) -> (items: &[DetailItem])
        ensures
            items@ == tab_rows(*self, tab),
    {
        match tab {
            DetailTab::Overview => self.overview.as_slice(),
            DetailTab::Env => self.env.as_slice(),
            DetailTab::Ports => self.ports.as_slice(),
            DetailTab::Mounts => self.mounts.as_slice(),
            DetailTab::Health => self.health.as_slice(),
            DetailTab::Logs => self.overview.as_slice(),
        }
    }
}

/// Rows stand in the order of their labels, each label once.
pub open spec fn labels_in_order(rows: Seq<(Seq<char>, Seq<char>)>) -> bool {
    forall|i: int, j: int|
        0 <= i < j < rows.len() ==> text_less((#[trigger] rows[i]).0, (#[trigger] rows[j]).0)
}

/// A row keeps the order, has its place, and moves no other row out.
pub proof fn row_takes_its_place(
    rows: Seq<(Seq<char>, Seq<char>)>,
    label: Seq<char>,
    value: Seq<char>,
)
    requires
        labels_in_order(rows),
    ensures
        labels_in_order(with_row(rows, label, value)),
        with_row(rows, label, value).contains((label, value)),
        forall|i: int|
            0 <= i < with_row(rows, label, value).len() ==> {
                let new = #[trigger] with_row(rows, label, value)[i];
                new == (label, value) || (new.0 != label && rows.contains(new))
            },
        forall|i: int|
            0 <= i < rows.len() && (#[trigger] rows[i]).0 != label ==> with_row(
                rows,
                label,
                value,
            ).contains(rows[i]),
    decreases rows.len(),
{
    let result = with_row(rows, label, value);
    if rows.len() == 0 {
        assert(result[0] == (label, value));
    } else if rows[0].0 == label {
        assert(result[0] == (label, value));
        assert forall|i: int| 0 <= i < result.len() implies ({
            let new = #[trigger] result[i];
            new == (label, value) || (new.0 != label && rows.contains(new))
        }) by {
            if i > 0 {
                assert(result[i] == rows[i]);
                text_order_is_total(label, rows[i].0);
            }
        }
        assert forall|i: int| 0 <= i < rows.len() && (#[trigger] rows[i]).0
            != label implies result.contains(rows[i]) by {
            assert(result[i] == rows[i]);
        }
        assert forall|i: int, j: int| 0 <= i < j < result.len() implies text_less(
            (#[trigger] result[i]).0,
            (#[trigger] result[j]).0,
        ) by {
            assert(result[j] == rows[j]);
            assert(result[i].0 == rows[i].0);
        }
    } else if text_less(label, rows[0].0) {
        assert(result[0] == (label, value));
        assert forall|i: int| 0 < i < result.len() implies text_less(
            label,
            (#[trigger] result[i]).0,
        ) by {
            assert(result[i] == rows[i - 1]);
            if i > 1 {
                text_order_is_transitive(label, rows[0].0, rows[i - 1].0);
            }
        }
        assert forall|i: int| 0 <= i < result.len() implies ({
            let new = #[trigger] result[i];
            new == (label, value) || (new.0 != label && rows.contains(new))
        }) by {
            if i > 0 {
                assert(result[i] == rows[i - 1]);
                text_order_is_total(label, rows[i - 1].0);
            }
        }
        assert forall|i: int| 0 <= i < rows.len() && (#[trigger] rows[i]).0
            != label implies result.contains(rows[i]) by {
            assert(result[i + 1] == rows[i]);
        }
        assert forall|i: int, j: int| 0 <= i < j < result.len() implies text_less(
            (#[trigger] result[i]).0,
            (#[trigger] result[j]).0,
        ) by {
            assert(result[j] == rows[j - 1]);
            if i > 0 {
                assert(result[i] == rows[i - 1]);
            }
        }
    } else {
        let rest = rows.skip(1);
        let tail = with_row(rest, label, value);
        assert forall|i: int, j: int| 0 <= i < j < rest.len() implies text_less(
            (#[trigger] rest[i]).0,
            (#[trigger] rest[j]).0,
        ) by {
            assert(rest[i] == rows[i + 1]);
            assert(rest[j] == rows[j + 1]);
        }
        row_takes_its_place(rest, label, value);
        text_order_is_total(label, rows[0].0);
        assert forall|i: int| 0 <= i < tail.len() implies text_less(
            rows[0].0,
            (#[trigger] tail[i]).0,
        ) by {
            if tail[i] != (label, value) {
                let k = choose|k: int| 0 <= k < rest.len() && rest[k] == tail[i];
                assert(rest[k] == rows[k + 1]);
            }
        }
        let at = choose|k: int| 0 <= k < tail.len() && tail[k] == (label, value);
        assert(result[at + 1] == (label, value));
        assert forall|i: int| 0 <= i < result.len() implies ({
            let new = #[trigger] result[i];
            new == (label, value) || (new.0 != label && rows.contains(new))
        }) by {
            if i > 0 {
                assert(result[i] == tail[i - 1]);
                if tail[i - 1] != (label, value) {
                    let k = choose|k: int| 0 <= k < rest.len() && rest[k] == tail[i - 1];
                    assert(rest[k] == rows[k + 1]);
                }
            } else {
                assert(result[0] == rows[0]);
            }
        }
        assert forall|i: int| 0 <= i < rows.len() && (#[trigger] rows[i]).0
            != label implies result.contains(rows[i]) by {
            if i > 0 {
                assert(rest[i - 1] == rows[i]);
                let k = choose|k: int| 0 <= k < tail.len() && tail[k] == rest[i - 1];
                assert(result[k + 1] == rows[i]);
            } else {
                assert(result[0] == rows[0]);
            }
        }
        assert forall|i: int, j: int| 0 <= i < j < result.len() implies text_less(
            (#[trigger] result[i]).0,
            (#[trigger] result[j]).0,
        ) by {
            assert(result[j] == tail[j - 1]);
            if i > 0 {
                assert(result[i] == tail[i - 1]);
            }
        }
    }
}

/// Some row has the label.
pub open spec fn has_label(rows: Seq<(Seq<char>, Seq<char>)>, label: Seq<char>) -> bool {
    exists|k: int| 0 <= k < rows.len() && (#[trigger] rows[k]).0 == label
}

/// The row tells of one of the ports.
pub open spec fn tells_of(ports: Seq<(String, JsonValue)>, row: (Seq<char>, Seq<char>)) -> bool {
    exists|i: int|
        0 <= i < ports.len() && row.0 == (#[trigger] ports[i]).0@ && row.1 == bindings_text(
            ports[i].1,
        )
}

/// The ports stand in the order of their names, each once; each port of the inspection has a row
/// and each row tells of one of the ports.
pub proof fn ports_stand_in_order(ports: Seq<(String, JsonValue)>)
    ensures
        labels_in_order(port_rows(ports)),
        forall|i: int| 0 <= i < ports.len() ==> has_label(port_rows(ports), (#[trigger] ports[i]).0@),
        forall|k: int|
            0 <= k < port_rows(ports).len() ==> tells_of(ports, #[trigger] port_rows(ports)[k]),
    decreases ports.len(),
{
    if ports.len() > 0 {
        let inner = ports.drop_last();
        let before = port_rows(inner);
        let label = ports.last().0@;
        let value = bindings_text(ports.last().1);
        let result = port_rows(ports);
        ports_stand_in_order(inner);
        row_takes_its_place(before, label, value);
        assert(result == with_row(before, label, value));
        let at = choose|k: int| 0 <= k < result.len() && result[k] == (label, value);
        assert forall|i: int| 0 <= i < ports.len() implies has_label(
            result,
            (#[trigger] ports[i]).0@,
        ) by {
            if i == ports.len() - 1 || ports[i].0@ == label {
                assert(result[at].0 == ports[i].0@);
            } else {
                assert(inner[i] == ports[i]);
                assert(has_label(before, inner[i].0@));
                let k = choose|k: int| 0 <= k < before.len() && (#[trigger] before[k]).0 == inner[i].0@;
                assert(result.contains(before[k]));
                let m = choose|m: int| 0 <= m < result.len() && result[m] == before[k];
                assert(result[m].0 == ports[i].0@);
            }
        }
        assert forall|k: int| 0 <= k < result.len() implies tells_of(ports, #[trigger] result[k]) by {
            if result[k] == (label, value) {
                assert(ports[ports.len() - 1] == ports.last());
            } else {
                assert(before.contains(result[k]));
                let m = choose|m: int| 0 <= m < before.len() && before[m] == result[k];
                assert(tells_of(inner, before[m]));
                let i = choose|i: int|
                    0 <= i < inner.len() && before[m].0 == (#[trigger] inner[i]).0@ && before[m].1
                        == bindings_text(inner[i].1);
                assert(ports[i] == inner[i]);
            }
        }
    }
}

// ---------------------------------------------------------------------------------------------
// Order
// ---------------------------------------------------------------------------------------------

/// An absent text stands before every text.
pub open spec fn option_less(a: Option<Seq<char>>, b: Option<Seq<char>>) -> bool {
    match (a, b) {
        (None, Some(_)) => true,
        (Some(x), Some(y)) => text_less(x, y),
        _ => false,
    }
}

/// The order of the container list: the running ones first, then by project, service and name.
pub open spec fn record_less(a: RecordModel, b: RecordModel) -> bool {
    if a.running() != b.running() {
        a.running()
    } else if a.project != b.project {
        option_less(a.project, b.project)
    } else if a.service != b.service {
        option_less(a.service, b.service)
    } else {
        text_less(a.name, b.name)
    }
}

/// The order of optional texts is strict and total.
proof fn option_order_is_total(a: Option<Seq<char>>, b: Option<Seq<char>>)
    ensures
        option_less(a, b) || option_less(b, a) || a == b,
        !(option_less(a, b) && option_less(b, a)),
        a == b ==> !option_less(a, b),
{
    if let (Some(x), Some(y)) = (a, b) {
        text_order_is_total(x, y);
    }
}

/// The order of optional texts is transitive.
proof fn option_order_is_transitive(
    a: Option<Seq<char>>,
    b: Option<Seq<char>>,
    c: Option<Seq<char>>,
)
    requires
        option_less(a, b),
        option_less(b, c),
    ensures
        option_less(a, c),
{
    if let (Some(x), Some(y)) = (a, b) {
        if let Some(z) = c {
            text_order_is_transitive(x, y, z);
        }
    }
}

/// What stands between two records in the list is behind the first or before the second; and of
/// two records not both stand before the other.
pub proof fn record_order_is_weak(a: RecordModel, b: RecordModel, c: RecordModel)
    ensures
        !(record_less(a, b) && record_less(b, a)),
        record_less(a, c) ==> record_less(a, b) || record_less(b, c),
{
    option_order_is_total(a.project, b.project);
    option_order_is_total(b.project, c.project);
    option_order_is_total(a.project, c.project);
    option_order_is_total(a.service, b.service);
    option_order_is_total(b.service, c.service);
    option_order_is_total(a.service, c.service);
    text_order_is_total(a.name, b.name);
    text_order_is_total(b.name, c.name);
    text_order_is_total(a.name, c.name);
    if option_less(c.project, b.project) && option_less(b.project, a.project) {
        option_order_is_transitive(c.project, b.project, a.project);
    }
    if option_less(c.service, b.service) && option_less(b.service, a.service) {
        option_order_is_transitive(c.service, b.service, a.service);
    }
    if text_less(c.name, b.name) && text_less(b.name, a.name) {
        text_order_is_transitive(c.name, b.name, a.name);
    }
}

/// `places` names every position below `count` once.
pub open spec fn is_permutation(places: Seq<int>, count: nat) -> bool {
    &&& places.len() == count
    &&& forall|i: int| 0 <= i < places.len() ==> 0 <= #[trigger] places[i] < count
    &&& forall|i: int, j: int|
        0 <= i < j < places.len() ==> #[trigger] places[i] != #[trigger] places[j]
}

/// `after` holds the records of `before` in the order of the list, those of one rank in the
/// order that they had; `places` says where each came from.
pub open spec fn sorted_from(
    before: Seq<ContainerRecord>,
    after: Seq<ContainerRecord>,
    places: Seq<int>,
) -> bool {
    &&& after.len() == before.len()
    &&& is_permutation(places, before.len())
    &&& forall|i: int| 0 <= i < after.len() ==> #[trigger] after[i] == before[places[i]]
    &&& forall|i: int, j: int|
        0 <= i < j < after.len() ==> stands_before(after, places, i, j)
}

/// The record at `i` is before the one at `j`, or of its rank and from an earlier place.
pub open spec fn stands_before(
    records: Seq<ContainerRecord>,
    places: Seq<int>,
    i: int,
    j: int,
) -> bool {
    record_less(records[i]@, records[j]@) || (!record_less(records[j]@, records[i]@) && places[i]
        < places[j])
}

/// `after` holds the records of `before` in the order of the list, those of one rank in the
/// order that they had.
pub open spec fn stably_sorted(
    before: Seq<ContainerRecord>,
    after: Seq<ContainerRecord>,
) -> bool {
    exists|places: Seq<int>| sorted_from(before, after, places)
}

/// A permutation reaches every position.
pub proof fn permutation_reaches(places: Seq<int>, count: nat, place: int) -> (at: int)
    requires
        is_permutation(places, count),
        0 <= place < count,
    ensures
        0 <= at < places.len(),
        places[at] == place,
{
    places.unique_seq_to_set();
    vstd::seq_lib::seq_to_set_is_finite(places);
    vstd::set_lib::lemma_int_range(0, count as int);
    let all = vstd::set_lib::set_int_range(0, count as int);
    assert(places.to_set().subset_of(all)) by {
        assert forall|p: int| places.to_set().contains(p) implies all.contains(p) by {
            let i = choose|i: int| 0 <= i < places.len() && places[i] == p;
        }
    }
    vstd::set_lib::lemma_subset_equality(places.to_set(), all);
    assert(places.to_set().contains(place));
    choose|i: int| 0 <= i < places.len() && places[i] == place
}

/// Two ways to sort some records stably take them from the same places, up to any position.
proof fn places_are_determined(
    before: Seq<ContainerRecord>,
    a: Seq<ContainerRecord>,
    b: Seq<ContainerRecord>,
    from_a: Seq<int>,
    from_b: Seq<int>,
    upto: int,
)
    requires
        sorted_from(before, a, from_a),
        sorted_from(before, b, from_b),
        0 <= upto <= before.len(),
    ensures
        forall|i: int| 0 <= i < upto ==> from_a[i] == from_b[i],
    decreases upto,
{
    if upto > 0 {
        let last = upto - 1;
        places_are_determined(before, a, b, from_a, from_b, last);
        if from_a[last] != from_b[last] {
            let in_b = permutation_reaches(from_b, before.len(), from_a[last]);
            let in_a = permutation_reaches(from_a, before.len(), from_b[last]);
            assert(in_b > last) by {
                if in_b < last {
                    assert(from_a[in_b] == from_b[in_b]);
                }
            }
            assert(in_a > last) by {
                if in_a < last {
                    assert(from_b[in_a] == from_a[in_a]);
                }
            }
            assert(stands_before(a, from_a, last, in_a));
            assert(stands_before(b, from_b, last, in_b));
            let x = before[from_a[last]]@;
            let y = before[from_b[last]]@;
            assert(a[last]@ == x && a[in_a]@ == y);
            assert(b[last]@ == y && b[in_b]@ == x);
            record_order_is_weak(x, y, x);
            assert(false);
        }
    }
}

/// The order of the list leaves no choice: some containers have one way to be sorted.
pub proof fn the_order_is_determined(
    before: Seq<ContainerRecord>,
    a: Seq<ContainerRecord>,
    b: Seq<ContainerRecord>,
)
    requires
        stably_sorted(before, a),
        stably_sorted(before, b),
    ensures
        a == b,
{
    let from_a = choose|places: Seq<int>| sorted_from(before, a, places);
    let from_b = choose|places: Seq<int>| sorted_from(before, b, places);
    places_are_determined(before, a, b, from_a, from_b, before.len() as int);
    assert(a =~= b);
}

/// Whether an optional text stands before another.
fn option_before(a: &Option<String>, b: &Option<String>) -> (less: bool)
    ensures
        less == option_less(text_of(*a), text_of(*b)),
{
    match (a, b) {
        (None, Some(_)) => true,
        (Some(x), Some(y)) => text_before(x.as_str(), y.as_str()),
        _ => false,
    }
}

/// Whether two optional strings hold the same characters.
pub fn same_option(a: &Option<String>, b: &Option<String>) -> (same: bool)
    ensures
        same == (text_of(*a) == text_of(*b)),
{
    match (a, b) {
        (None, None) => true,
        (Some(x), Some(y)) => same_text(x.as_str(), y.as_str()),
        _ => false,
    }
}

/// Whether a container stands before another in the list.
fn record_before(a: &ContainerRecord, b: &ContainerRecord) -> (less: bool)
    ensures
        less == record_less(a@, b@),
{
    let a_runs = a.is_running();
    let b_runs = b.is_running();
    if a_runs != b_runs {
        a_runs
    } else if !same_option(&a.project, &b.project) {
        option_before(&a.project, &b.project)
    } else if !same_option(&a.service, &b.service) {
        option_before(&a.service, &b.service)
    } else {
        text_before(a.name.as_str(), b.name.as_str())
    }
}

/// The first `done` records are in the order of the list, and the others are where they were;
/// `places` says where each came from.
spec fn partly_sorted(
    before: Seq<ContainerRecord>,
    records: Seq<ContainerRecord>,
    places: Seq<int>,
    done: int,
) -> bool {
    &&& 0 <= done <= before.len()
    &&& records.len() == before.len()
    &&& is_permutation(places, before.len())
    &&& forall|i: int| 0 <= i < records.len() ==> #[trigger] records[i] == before[places[i]]
    &&& forall|i: int| done <= i < places.len() ==> #[trigger] places[i] == i
    &&& forall|i: int| 0 <= i < done ==> 0 <= #[trigger] places[i] < done
    &&& forall|i: int, j: int| 0 <= i < j < done ==> stands_before(records, places, i, j)
}

/// Where an element comes from when the one at `done` moves to `at`, at or before it.
spec fn source(at: int, done: int, i: int) -> int {
    if i < at {
        i
    } else if i == at {
        done
    } else if i <= done {
        i - 1
    } else {
        i
    }
}

/// A sequence whose element at `done` has moved to `at`, at or before it.
proof fn moved_elements<T>(elements: Seq<T>, at: int, done: int)
    requires
        0 <= at <= done < elements.len(),
    ensures
        elements.remove(done).insert(at, elements[done]).len() == elements.len(),
        forall|i: int|
            0 <= i < elements.len() ==> #[trigger] elements.remove(done).insert(
                at,
                elements[done],
            )[i] == elements[source(at, done, i)],
{
}

/// A record that is not before the one at `at - 1` is before none of the sorted records up to
/// there.
proof fn not_before_any(
    before: Seq<ContainerRecord>,
    records: Seq<ContainerRecord>,
    places: Seq<int>,
    at: int,
    done: int,
    i: int,
)
    requires
        partly_sorted(before, records, places, done),
        0 <= i < at <= done < records.len(),
        !record_less(records[done]@, records[at - 1]@),
    ensures
        !record_less(records[done]@, records[i]@),
{
    if i < at - 1 {
        assert(stands_before(records, places, i, at - 1));
        record_order_is_weak(records[done]@, records[at - 1]@, records[i]@);
        record_order_is_weak(records[i]@, records[at - 1]@, records[i]@);
    }
}

/// The next record takes its place among the sorted ones: behind all that it is not before.
proof fn next_record_takes_its_place(
    before: Seq<ContainerRecord>,
    records: Seq<ContainerRecord>,
    places: Seq<int>,
    at: int,
    done: int,
)
    requires
        partly_sorted(before, records, places, done),
        0 <= at <= done < records.len(),
        at > 0 ==> !record_less(records[done]@, records[at - 1]@),
        forall|i: int| at <= i < done ==> record_less(records[done]@, (#[trigger] records[i])@),
    ensures
        partly_sorted(
            before,
            records.remove(done).insert(at, records[done]),
            places.remove(done).insert(at, places[done]),
            done + 1,
        ),
{
    let sorted = records.remove(done).insert(at, records[done]);
    let moved = places.remove(done).insert(at, places[done]);
    moved_elements(records, at, done);
    moved_elements(places, at, done);
    assert forall|i: int, j: int| 0 <= i < j < moved.len() implies #[trigger] moved[i]
        != #[trigger] moved[j] by {
        let a = source(at, done, i);
        let b = source(at, done, j);
        assert(a < b || b < a);
        assert(places[a] != places[b]);
    }
    assert forall|i: int| 0 <= i < moved.len() implies 0 <= #[trigger] moved[i]
        < before.len() by {
        assert(moved[i] == places[source(at, done, i)]);
    }
    assert forall|i: int| 0 <= i < sorted.len() implies #[trigger] sorted[i]
        == before[moved[i]] by {
        assert(moved[i] == places[source(at, done, i)]);
    }
    assert forall|i: int| done + 1 <= i < moved.len() implies #[trigger] moved[i] == i by {}
    assert forall|i: int| 0 <= i < done + 1 implies 0 <= #[trigger] moved[i] < done + 1 by {
        assert(moved[i] == places[source(at, done, i)]);
    }
    assert forall|i: int, j: int| 0 <= i < j < done + 1 implies stands_before(
        sorted,
        moved,
        i,
        j,
    ) by {
        let a = source(at, done, i);
        let b = source(at, done, j);
        assert(sorted[i] == records[a] && sorted[j] == records[b]);
        assert(moved[i] == places[a] && moved[j] == places[b]);
        if j == at {
            not_before_any(before, records, places, at, done, i);
            assert(places[a] < done);
        } else if i != at {
            assert(stands_before(records, places, a, b));
        }
    }
}

/// Puts the containers in the order of the list. Containers of one rank keep their order.
pub fn sort_containers(containers: &mut Vec<ContainerRecord>)
    ensures
        stably_sorted(old(containers)@, final(containers)@),
{
    let ghost before = containers@;
    let total: usize = containers.len();
    let ghost mut places: Seq<int> = Seq::new(total as nat, |i: int| i);
    let mut done: usize = 0;
    while done < total
        invariant
            done <= total == before.len(),
            partly_sorted(before, containers@, places, done as int),
        decreases total - done,
    {
        let ghost earlier = containers@;
        let mut at: usize = done;
        while 0 < at && record_before(&containers[done], &containers[at - 1])
            invariant
                at <= done < total,
                containers@ == earlier,
                earlier.len() == total,
                forall|i: int|
                    at <= i < done ==> record_less(
                        earlier[done as int]@,
                        (#[trigger] earlier[i])@,
                    ),
            decreases at,
        {
            at -= 1;
        }
        let record = containers.remove(done);
        containers.insert(at, record);
        proof {
            next_record_takes_its_place(before, earlier, places, at as int, done as int);
            places = places.remove(done as int).insert(at as int, places[done as int]);
        }
        done += 1;
    }
    proof {
        assert(sorted_from(before, containers@, places));
    }
}

/// In the sorted list no stopped container stands before a running one.
pub proof fn running_stand_first(before: Seq<ContainerRecord>, after: Seq<ContainerRecord>)
    requires
        stably_sorted(before, after),
    ensures
        forall|i: int, j: int|
            0 <= i < j < after.len() && (#[trigger] after[j])@.running() ==> (
            #[trigger] after[i])@.running(),
{
    let places = choose|places: Seq<int>| sorted_from(before, after, places);
    assert forall|i: int, j: int| 0 <= i < j < after.len() && (#[trigger] after[j])@.running()
        implies (#[trigger] after[i])@.running() by {
        assert(stands_before(after, places, i, j));
    }
}

// ---------------------------------------------------------------------------------------------
// Filters
// ---------------------------------------------------------------------------------------------

/// A container passes the filters: it runs or stopped ones are shown too, it belongs to the
/// project where one is asked for, and it answers to the query where there is one.
pub open spec fn passes(
    record: RecordModel,
    show_stopped: bool,
    project: Option<Seq<char>>,
    query: Option<Seq<char>>,
) -> bool {
    &&& show_stopped || record.running()
    &&& project is Some ==> record.project == project
    &&& query matches Some(q) ==> record.matches(q)
}

/// The containers that pass the filters, in their order.
pub open spec fn passing(
    containers: Seq<ContainerRecord>,
    show_stopped: bool,
    project: Option<Seq<char>>,
    query: Option<Seq<char>>,
) -> Seq<ContainerRecord> {
    containers.filter(|record: ContainerRecord| passes(record@, show_stopped, project, query))
}

/// The characters of an optional string slice.
pub open spec fn str_of(value: Option<&str>) -> Option<Seq<char>> {
    match value {
        Some(s) => Some(s@),
        None => None,
    }
}

/// The containers that pass the filters, in their order.
pub fn apply_container_filters<'a>(
    containers: &'a [ContainerRecord],
    show_stopped: bool,
    project_filter: Option<&str>,
    query: Option<&str>,
) -> (result: Vec<&'a ContainerRecord>)
    ensures
        result@.unref() == passing(
            containers@,
            show_stopped,
            str_of(project_filter),
            str_of(query),
        ),
{
    let mut result: Vec<&'a ContainerRecord> = Vec::new();
    let ghost project = str_of(project_filter);
    let ghost asked = str_of(query);
    let ghost pass = |record: ContainerRecord| passes(record@, show_stopped, project, asked);
    let mut i: usize = 0;
    proof {
        reveal(Seq::filter);
        assert(result@.unref() =~= containers@.take(0).filter(pass));
    }
    while i < containers.len()
        invariant
            i <= containers@.len(),
            project == str_of(project_filter),
            asked == str_of(query),
            pass == (|record: ContainerRecord| passes(record@, show_stopped, project, asked)),
            result@.unref() == containers@.take(i as int).filter(pass),
        decreases containers@.len() - i,
    {
        let container = &containers[i];
        let kept = (show_stopped || container.is_running()) && (match project_filter {
            Some(filter) => is_text(&container.project, filter),
            None => true,
        }) && (match query {
            Some(query) => container.matches_query(query),
            None => true,
        });
        proof {
            reveal(Seq::filter);
            assert(containers@.take(i + 1).drop_last() =~= containers@.take(i as int));
            assert(containers@.take(i + 1).last() == containers@[i as int]);
            assert(kept == pass(containers@[i as int]));
        }
        if kept {
            let ghost before = result@.unref();
            result.push(container);
            proof {
                assert(result@.unref() =~= before.push(*container));
            }
        }
        i += 1;
    }
    proof {
        assert(containers@.take(i as int) =~= containers@);
    }
    result
}

/// Every container that passes the filters is found by them, and only such containers are.
pub proof fn passing_is_complete(
    containers: Seq<ContainerRecord>,
    show_stopped: bool,
    project: Option<Seq<char>>,
    query: Option<Seq<char>>,
    record: ContainerRecord,
)
    ensures
        passing(containers, show_stopped, project, query).contains(record) <==> (
        containers.contains(record) && passes(record@, show_stopped, project, query)),
    decreases containers.len(),
{
    reveal(Seq::filter);
    let found = passing(containers, show_stopped, project, query);
    if containers.len() > 0 {
        let inner = containers.drop_last();
        let last = containers.last();
        passing_is_complete(inner, show_stopped, project, query, record);
        let before = passing(inner, show_stopped, project, query);
        assert(containers =~= inner.push(last));
        assert(containers.contains(record) <==> inner.contains(record) || record == last) by {
            if inner.contains(record) {
                let k = choose|k: int| 0 <= k < inner.len() && inner[k] == record;
                assert(containers[k] == record);
            }
            if record == last {
                assert(containers[containers.len() - 1] == record);
            }
        }
        if passes(last@, show_stopped, project, query) {
            assert(found == before.push(last));
            if before.contains(record) {
                let k = choose|k: int| 0 <= k < before.len() && before[k] == record;
                assert(found[k] == record);
            }
            if record == last {
                assert(found[found.len() - 1] == record);
            }
        }
    }
}

} // verus!
