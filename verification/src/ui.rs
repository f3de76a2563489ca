//! What the screen shows and how a text reaches the clipboard, as far as it is to be decided.

use base64::Engine;

use crate::ansi::Color;
use crate::config::ThemeName;
use crate::logs::{last_index, lesser, row_models, LogModel, LogView, VisibleLogRow};
use crate::model::{ContainerRecord, DetailItem, LogFilterMode, RecordModel};
use crate::pattern::regex_error;
use crate::state::{App, AppModel, InputKind};
use crate::text::{
    chars_of, concat, contains_text, copied, decimal, decimal_usize, find_chars, is_blank, join,
    joined, lower_chars, lowered, occurs, occurs_at, string_of, text_of, texts, trimmed,
};
use vstd::prelude::*;
use vstd::string::StringExecFns;
use vstd::utf8::encode_utf8;

verus! {

// ---------------------------------------------------------------------------------------------
// The clipboard
// ---------------------------------------------------------------------------------------------

/// A program that puts its input into the clipboard.
#[derive(Clone, Debug)]
pub struct ClipboardBackend {
    pub program: &'static str,
    pub args: Vec<&'static str>,
}

/// A way to put a text into the clipboard.
#[derive(Clone, Debug)]
pub enum CopyMethod {
    /// A program with its arguments.
    Command(ClipboardBackend),
    /// The clipboard of the desktop.
    Desktop,
    /// An escape sequence of the terminal.
    Terminal,
}

/// What a way to put a text into the clipboard is: of a program, its name and its arguments.
#[verifier::ext_equal]
pub enum MethodModel {
    Command(Seq<char>, Seq<Seq<char>>),
    Desktop,
    Terminal,
}

/// The characters of some words.
pub open spec fn words(args: Seq<&'static str>) -> Seq<Seq<char>> {
    args.map_values(|arg: &'static str| arg@)
}

impl View for CopyMethod {
    type V = MethodModel;

    open spec fn view(&self) -> MethodModel {
        match *self {
            CopyMethod::Command(backend) => MethodModel::Command(
                backend.program@,
                words(backend.args@),
            ),
            CopyMethod::Desktop => MethodModel::Desktop,
            CopyMethod::Terminal => MethodModel::Terminal,
        }
    }
}

/// What some ways to put a text into the clipboard are.
pub open spec fn method_models(methods: Seq<CopyMethod>) -> Seq<MethodModel> {
    methods.map_values(|method: CopyMethod| method@)
}

/// A program, where it is of use.
pub open spec fn program_if(
    useful: bool,
    program: Seq<char>,
    args: Seq<Seq<char>>,
) -> Seq<MethodModel> {
    if useful {
        seq![MethodModel::Command(program, args)]
    } else {
        Seq::empty()
    }
}

/// The programs that put a text into the clipboard, under Wayland, under X11 and on macOS.
pub open spec fn useful_programs(wayland: bool, x11: bool, macos: bool) -> Seq<MethodModel> {
    program_if(wayland, "wl-copy"@, Seq::empty()) + program_if(
        x11,
        "xclip"@,
        seq!["-selection"@, "clipboard"@],
    ) + program_if(x11, "xsel"@, seq!["--clipboard"@, "--input"@]) + program_if(
        macos,
        "pbcopy"@,
        Seq::empty(),
    )
}

/// The programs that put a text into the clipboard.
pub fn preferred_clipboard_backends(wayland: bool, x11: bool, macos: bool) -> (methods: Vec<
    CopyMethod,
>)
    ensures
        method_models(methods@) == useful_programs(wayland, x11, macos),
{
    let mut methods: Vec<CopyMethod> = Vec::new();
    let ghost bare: Seq<&'static str> = Seq::empty();
    proof {
        assert(words(bare) =~= Seq::empty());
        assert(words(seq!["-selection", "clipboard"]) =~= seq!["-selection"@, "clipboard"@]);
        assert(words(seq!["--clipboard", "--input"]) =~= seq!["--clipboard"@, "--input"@]);
    }
    if wayland {
        let args: Vec<&'static str> = Vec::new();
        proof {
            assert(args@ =~= bare);
        }
        methods.push(CopyMethod::Command(ClipboardBackend { program: "wl-copy", args }));
    }
    if x11 {
        let args: Vec<&'static str> = vec!["-selection", "clipboard"];
        proof {
            assert(args@ =~= seq!["-selection", "clipboard"]);
        }
        methods.push(CopyMethod::Command(ClipboardBackend { program: "xclip", args }));
        let args: Vec<&'static str> = vec!["--clipboard", "--input"];
        proof {
            assert(args@ =~= seq!["--clipboard", "--input"]);
        }
        methods.push(CopyMethod::Command(ClipboardBackend { program: "xsel", args }));
    }
    if macos {
        let args: Vec<&'static str> = Vec::new();
        proof {
            assert(args@ =~= bare);
        }
        methods.push(CopyMethod::Command(ClipboardBackend { program: "pbcopy", args }));
    }
    proof {
        assert(method_models(methods@) =~= useful_programs(wayland, x11, macos));
    }
    methods
}

/// The ways to put a text into the clipboard, in the order in which they are tried: programs, the
/// desktop, the terminal.
pub fn copy_methods(wayland: bool, x11: bool, macos: bool) -> (methods: Vec<CopyMethod>)
    ensures
        method_models(methods@) == useful_programs(wayland, x11, macos).push(
            MethodModel::Desktop,
        ).push(MethodModel::Terminal),
{
    let mut methods = preferred_clipboard_backends(wayland, x11, macos);
    let ghost programs = methods@;
    methods.push(CopyMethod::Desktop);
    methods.push(CopyMethod::Terminal);
    proof {
        assert(method_models(methods@) =~= method_models(programs).push(MethodModel::Desktop).push(
            MethodModel::Terminal,
        ));
    }
    methods
}

/// The name under which a way reports that it failed.
pub open spec fn method_label(method: MethodModel) -> Seq<char> {
    match method {
        MethodModel::Command(program, _) => program,
        MethodModel::Desktop => "arboard"@,
        MethodModel::Terminal => "osc52"@,
    }
}

/// What is said of a way that failed.
pub fn copy_error(method: &CopyMethod, error: &str) -> (text: String)
    ensures
        text@ == method_label(method@) + ": "@ + error@,
{
    let label = match method {
        CopyMethod::Command(backend) => concat(backend.program, ": "),
        CopyMethod::Desktop => concat("arboard", ": "),
        CopyMethod::Terminal => concat("osc52", ": "),
    };
    concat(label.as_str(), error)
}

/// What is said when every way failed.
pub fn copy_failure(errors: &Vec<String>) -> (text: String)
    ensures
        text@ == joined(texts(errors@), "; "@),
{
    join(errors, "; ")
}

/// The base64 encoding of the bytes of a text.
pub uninterp spec fn base64_text(text: Seq<char>) -> Seq<char>;

/// `base64::Engine::encode` of `base64::engine::general_purpose::STANDARD` encodes the UTF-8
/// bytes of a text. The result depends on the text alone; which characters it is made of is left
/// to the standard alphabet.
#[verifier::external_body]
fn encode_base64(text: &str) -> (encoded: String)
    ensures
        encoded@ == base64_text(text@),
{
    base64::engine::general_purpose::STANDARD.encode(text)
}

/// The terminal's escape sequence for an encoded text. Inside tmux and inside screen it is
/// wrapped so that it gets through.
pub open spec fn clipboard_sequence(encoded: Seq<char>, tmux: bool, screen: bool) -> Seq<char> {
    if tmux {
        "\u{1b}Ptmux;\u{1b}\u{1b}]52;c;"@ + encoded + "\u{7}\u{1b}\\"@
    } else if screen {
        "\u{1b}P\u{1b}]52;c;"@ + encoded + "\u{7}\u{1b}\\"@
    } else {
        "\u{1b}]52;c;"@ + encoded + "\u{7}"@
    }
}

/// A terminal is one of screen.
pub open spec fn names_screen(term: Option<String>) -> bool {
    match term {
        Some(term) => occurs(term@, "screen"@),
        None => false,
    }
}

/// The terminal's escape sequence for an encoded text.
pub fn osc52_frame(encoded: &str, tmux: bool, term: &Option<String>) -> (sequence: String)
    ensures
        sequence@ == clipboard_sequence(encoded@, tmux, names_screen(*term)),
{
    let screen = match term {
        Some(term) => contains_text(term.as_str(), "screen"),
        None => false,
    };
    let head = if tmux {
        concat("\u{1b}Ptmux;\u{1b}\u{1b}]52;c;", encoded)
    } else if screen {
        concat("\u{1b}P\u{1b}]52;c;", encoded)
    } else {
        concat("\u{1b}]52;c;", encoded)
    };
    if tmux || screen {
        concat(head.as_str(), "\u{7}\u{1b}\\")
    } else {
        concat(head.as_str(), "\u{7}")
    }
}

/// The escape sequence by which the terminal puts a text into the clipboard.
pub fn osc52_sequence(text: &str, tmux: bool, term: &Option<String>) -> (sequence: String)
    ensures
        sequence@ == clipboard_sequence(base64_text(text@), tmux, names_screen(*term)),
{
    let encoded = encode_base64(text);
    osc52_frame(encoded.as_str(), tmux, term)
}

/// What is said when a text has been copied: how many bytes it has.
pub fn copied_message(text: &str) -> (message: String)
    ensures
        message@ == "Copied "@ + decimal((encode_utf8(text@).len() as usize) as nat)
            + " bytes to the clipboard"@,
{
    let count = decimal_usize(text.len());
    let head = concat("Copied ", count.as_str());
    concat(head.as_str(), " bytes to the clipboard")
}

/// What is said when a text could not be copied.
pub fn copy_failed_message(error: &str) -> (message: String)
    ensures
        message@ == "Clipboard copy failed: "@ + error@,
{
    concat("Clipboard copy failed: ", error)
}

// ---------------------------------------------------------------------------------------------
// Containers and details
// ---------------------------------------------------------------------------------------------

/// The headings of the container list.
pub fn container_headings() -> (headings: Vec<&'static str>)
    ensures
        words(headings@) == seq![
            "State"@,
            "Name"@,
            "Project"@,
            "Service"@,
            "Image"@,
            "Ports"@,
            "Status"@,
        ],
{
    let headings: Vec<&'static str> = vec![
        "State",
        "Name",
        "Project",
        "Service",
        "Image",
        "Ports",
        "Status",
    ];
    proof {
        assert(words(headings@) =~= seq![
            "State"@,
            "Name"@,
            "Project"@,
            "Service"@,
            "Image"@,
            "Ports"@,
            "Status"@,
        ]);
    }
    headings
}

/// An optional text, or a dash.
pub open spec fn or_dash(text: Option<Seq<char>>) -> Seq<char> {
    match text {
        Some(text) => text,
        None => "-"@,
    }
}

fn shown_or_dash(text: &Option<String>) -> (shown: String)
    ensures
        shown@ == or_dash(text_of(*text)),
{
    match text {
        Some(text) => copied(text.as_str()),
        None => copied("-"),
    }
}

/// The cells of a container in the list.
pub open spec fn cells_of(record: RecordModel) -> Seq<Seq<char>> {
    seq![
        record.state,
        record.name,
        or_dash(record.project),
        or_dash(record.service),
        record.image,
        record.ports_line(),
        record.status,
    ]
}

/// The cells of a container in the list.
pub fn container_cells(record: &ContainerRecord) -> (cells: Vec<String>)
    ensures
        texts(cells@) == cells_of(record@),
{
    let cells = vec![
        copied(record.state.as_str()),
        copied(record.name.as_str()),
        shown_or_dash(&record.project),
        shown_or_dash(&record.service),
        copied(record.image.as_str()),
        record.ports_summary(),
        copied(record.status.as_str()),
    ];
    proof {
        assert(texts(cells@) =~= cells_of(record@));
    }
    cells
}

/// A text with spaces behind it, up to a number of characters.
pub open spec fn padded(text: Seq<char>, width: nat) -> Seq<char> {
    if text.len() >= width {
        text
    } else {
        text + Seq::new((width - text.len()) as nat, |i: int| ' ')
    }
}

/// The label of a detail row, with spaces behind it up to eighteen characters.
pub fn padded_label(label: &str) -> (text: String)
    ensures
        text@ == padded(label@, 18),
{
    let mut text = copied(label);
    let mut count: usize = chars_of(label).len();
    let ghost start = count;
    while count < 18
        invariant
            start == label@.len(),
            start <= count,
            count <= 18 || count == start,
            text@ == label@ + Seq::new((count - start) as nat, |i: int| ' '),
        decreases 18 - count,
    {
        let ghost before = text@;
        text.push(' ');
        count += 1;
        proof {
            assert(text@ =~= label@ + Seq::new((count - start) as nat, |i: int| ' '));
        }
    }
    proof {
        assert(text@ =~= padded(label@, 18));
    }
    text
}

/// The row of a detail list that is marked: the selected one, or the last one.
pub fn marked_row(selected: usize, len: usize) -> (row: usize)
    ensures
        row == lesser(selected as int, last_index(len as nat)),
{
    let last: usize = if len == 0 { 0 } else { len - 1 };
    if selected <= last {
        selected
    } else {
        last
    }
}

// ---------------------------------------------------------------------------------------------
// Logs
// ---------------------------------------------------------------------------------------------

/// How a row of the log view stands out.
#[derive(Clone, Copy, Debug, PartialEq, Eq, Structural)]
pub enum Emphasis {
    /// It belongs to the selected range.
    Range,
    /// It belongs to the selected line.
    Selected,
    Plain,
}

/// How a row of the log view stands out.
pub open spec fn emphasis_of(logs: LogModel, line: int) -> Emphasis {
    match logs.range() {
        Some((start, end)) if start <= line <= end => Emphasis::Range,
        _ => if line == logs.selected {
            Emphasis::Selected
        } else {
            Emphasis::Plain
        },
    }
}

/// How a row of the log view stands out, given the line that it belongs to.
pub fn row_emphasis(logs: &LogView, entry_index: usize) -> (emphasis: Emphasis)
    ensures
        emphasis == emphasis_of(logs@, entry_index as int),
{
    if let Some((start, end)) = logs.selected_range() {
        if start <= entry_index && entry_index <= end {
            return Emphasis::Range;
        }
    }
    if entry_index == logs.selected {
        Emphasis::Selected
    } else {
        Emphasis::Plain
    }
}

/// What stands where there are no log rows.
pub fn log_placeholder(logs: &LogView) -> (text: &'static str)
    ensures
        text@ == placeholder(logs@.loading),
{
    if logs.loading {
        "Loading logs..."
    } else {
        "No log lines"
    }
}

/// The first place at which a text occurs in another, from one on.
pub open spec fn first_at(haystack: Seq<char>, needle: Seq<char>, from: int) -> Option<int>
    decreases haystack.len() + 1 - from,
{
    if from > haystack.len() {
        None
    } else if occurs_at(haystack, needle, from) {
        Some(from)
    } else {
        first_at(haystack, needle, from + 1)
    }
}

/// The text of a row: as it stands, or in three parts of which the middle one is marked.
#[derive(Clone, Debug, PartialEq, Eq)]
pub enum RowText {
    Plain(String),
    Marked(String, String, String),
}

/// What the text of a row says.
#[verifier::ext_equal]
pub enum TextModel {
    Plain(Seq<char>),
    Marked(Seq<char>, Seq<char>, Seq<char>),
}

impl View for RowText {
    type V = TextModel;

    open spec fn view(&self) -> TextModel {
        match *self {
            RowText::Plain(text) => TextModel::Plain(text@),
            RowText::Marked(before, hit, behind) => TextModel::Marked(before@, hit@, behind@),
        }
    }
}

/// A text in which the searched text is marked where it first occurs, whatever the case of ASCII
/// letters.
pub open spec fn marked_text(content: Seq<char>, query: Seq<char>) -> TextModel {
    match first_at(lowered(content), lowered(query), 0) {
        Some(at) if trimmed(query).len() > 0 => TextModel::Marked(
            content.take(at),
            content.subrange(at, at + query.len()),
            content.skip(at + query.len()),
        ),
        _ => TextModel::Plain(content),
    }
}

/// The first place is the one before which there is none.
proof fn first_place(haystack: Seq<char>, needle: Seq<char>, from: int, at: int)
    requires
        0 <= from <= at,
        occurs_at(haystack, needle, at),
        forall|i: int| from <= i < at ==> !occurs_at(haystack, needle, i),
    ensures
        first_at(haystack, needle, from) == Some(at),
    decreases at - from,
{
    if from < at {
        first_place(haystack, needle, from + 1, at);
    }
}

/// A text that occurs nowhere has no first place.
proof fn no_place(haystack: Seq<char>, needle: Seq<char>, from: int)
    requires
        !occurs(haystack, needle),
    ensures
        first_at(haystack, needle, from) is None,
    decreases haystack.len() + 1 - from,
{
    if from <= haystack.len() {
        no_place(haystack, needle, from + 1);
    }
}

/// Marks the searched text in a row of the log view.
pub fn highlight_search(content: String, query: &str) -> (text: RowText)
    ensures
        text@ == marked_text(content@, query@),
{
    if is_blank(query) {
        return RowText::Plain(content);
    }
    let chars = chars_of(content.as_str());
    let haystack = lower_chars(content.as_str());
    let needle = lower_chars(query);
    let total: usize = chars.len();
    match find_chars(&haystack, &needle) {
        Some(at) => {
            proof {
                assert(at + needle@.len() <= total);
                first_place(haystack@, needle@, 0, at as int);
            }
            let end: usize = at + needle.len();
            let before = string_of(&chars, 0, at);
            let hit = string_of(&chars, at, end);
            let behind = string_of(&chars, end, total);
            proof {
                assert(before@ =~= content@.take(at as int));
                assert(behind@ =~= content@.skip(end as int));
            }
            RowText::Marked(before, hit, behind)
        },
        None => {
            proof {
                no_place(haystack@, needle@, 0);
            }
            RowText::Plain(content)
        },
    }
}

/// Marking a text changes nothing of it, and what is marked is the searched text, whatever the
/// case of ASCII letters.
pub proof fn marking_keeps_the_text(content: Seq<char>, query: Seq<char>)
    ensures
        match marked_text(content, query) {
            TextModel::Plain(text) => text == content,
            TextModel::Marked(before, hit, behind) => before + hit + behind == content && lowered(
                hit,
            ) == lowered(query),
        },
{
    if let Some(at) = first_at(lowered(content), lowered(query), 0) {
        first_at_is_a_place(lowered(content), lowered(query), 0);
        let hit = content.subrange(at, at + query.len());
        assert(content.take(at) + hit + content.skip(at + query.len()) =~= content);
        assert(lowered(hit) =~= lowered(content).subrange(at, at + query.len()));
    }
}

/// The first place is a place.
proof fn first_at_is_a_place(haystack: Seq<char>, needle: Seq<char>, from: int)
    ensures
        first_at(haystack, needle, from) matches Some(at) ==> occurs_at(haystack, needle, at),
    decreases haystack.len() + 1 - from,
{
    if from <= haystack.len() && !occurs_at(haystack, needle, from) {
        first_at_is_a_place(haystack, needle, from + 1);
    }
}

/// A switch in words.
pub open spec fn switch(on: bool) -> Seq<char> {
    if on {
        "on"@
    } else {
        "off"@
    }
}

/// A query, or that there is none.
pub open spec fn query_or_none(query: Seq<char>) -> Seq<char> {
    if query.len() == 0 {
        "<none>"@
    } else {
        query
    }
}

/// How many lines are selected, in words.
pub open spec fn lines_selected(logs: LogModel) -> Seq<char> {
    match logs.range() {
        Some((start, end)) => decimal((end - start + 1) as nat) + " lines"@,
        None => "1 line"@,
    }
}

/// The line of notes below the log, given the error of its filter.
pub open spec fn notes(logs: LogModel, error: Option<Seq<char>>) -> Seq<char> {
    match error {
        Some(error) => "filter error: "@ + error,
        None => "follow:"@ + switch(logs.follow) + "  wrap:"@ + switch(logs.wrap)
            + "  timestamps:"@ + switch(logs.show_timestamps) + "  filter:"@ + query_or_none(
            logs.filter_query,
        ) + " ("@ + (match logs.filter_mode {
            LogFilterMode::Substring => "substring"@,
            LogFilterMode::Regex => "regex"@,
        }) + ")  search:"@ + query_or_none(logs.search_query) + "  selected:"@ + lines_selected(
            logs,
        ),
    }
}

fn switch_text(on: bool) -> (text: &'static str)
    ensures
        text@ == switch(on),
{
    if on {
        "on"
    } else {
        "off"
    }
}

fn query_text(query: &String) -> (text: String)
    ensures
        text@ == query_or_none(query@),
{
    if query.as_str().is_empty() {
        copied("<none>")
    } else {
        copied(query.as_str())
    }
}

/// The line of notes below the log, given the error of its filter.
pub fn log_notes(logs: &LogView, error: Option<String>) -> (text: String)
    requires
        logs@.range() matches Some((start, end)) ==> end - start < usize::MAX,
    ensures
        text@ == notes(logs@, text_of(error)),
{
    if let Some(error) = error {
        return concat("filter error: ", error.as_str());
    }
    let mut text = copied("follow:");
    text.append(switch_text(logs.follow));
    text.append("  wrap:");
    text.append(switch_text(logs.wrap));
    text.append("  timestamps:");
    text.append(switch_text(logs.show_timestamps));
    text.append("  filter:");
    text.append(query_text(&logs.filter_query).as_str());
    text.append(" (");
    text.append(
        match logs.filter_mode {
            LogFilterMode::Substring => "substring",
            LogFilterMode::Regex => "regex",
        },
    );
    text.append(")  search:");
    text.append(query_text(&logs.search_query).as_str());
    text.append("  selected:");
    let selected = match logs.selected_range() {
        Some((start, end)) => {
            let count = decimal_usize(end - start + 1);
            concat(count.as_str(), " lines")
        },
        None => copied("1 line"),
    };
    text.append(selected.as_str());
    text
}

/// The line of notes below the log.
pub fn log_subtitle(logs: &LogView) -> (text: String)
    requires
        logs@.range() matches Some((start, end)) ==> end - start < usize::MAX,
    ensures
        text@ == notes(
            logs@,
            if logs.filter_mode == LogFilterMode::Regex && trimmed(logs.filter_query@).len() > 0 {
                regex_error(logs.filter_query@)
            } else {
                None
            },
        ),
{
    log_notes(logs, logs.regex_error())
}

// ---------------------------------------------------------------------------------------------
// Panels
// ---------------------------------------------------------------------------------------------

/// A row of the log panel.
#[derive(Clone, Debug)]
pub struct PanelRow {
    pub text: RowText,
    pub emphasis: Emphasis,
}

impl View for PanelRow {
    type V = (TextModel, Emphasis);

    open spec fn view(&self) -> (TextModel, Emphasis) {
        (self.text@, self.emphasis)
    }
}

/// What some rows of the log panel say.
pub open spec fn panel_models(rows: Seq<PanelRow>) -> Seq<(TextModel, Emphasis)> {
    rows.map_values(|row: PanelRow| row@)
}

/// What stands where there are no log rows.
pub open spec fn placeholder(loading: bool) -> Seq<char> {
    if loading {
        "Loading logs..."@
    } else {
        "No log lines"@
    }
}

/// The rows of the log panel: the visible rows with the searched text marked in them, or a
/// placeholder.
pub open spec fn panel_of(logs: LogModel, rows: Seq<(int, Seq<char>)>) -> Seq<
    (TextModel, Emphasis),
> {
    if rows.len() == 0 {
        seq![(TextModel::Plain(placeholder(logs.loading)), Emphasis::Plain)]
    } else {
        rows.map_values(
            |row: (int, Seq<char>)|
                (marked_text(row.1, logs.search_query), emphasis_of(logs, row.0)),
        )
    }
}

/// The rows of the log panel, given the visible rows.
pub fn log_panel_of(logs: &LogView, rows: Vec<VisibleLogRow>) -> (panel: Vec<PanelRow>)
    ensures
        panel_models(panel@) == panel_of(logs@, row_models(rows@)),
{
    let ghost given = rows@;
    let ghost expected = panel_of(logs@, row_models(given));
    let mut panel: Vec<PanelRow> = Vec::new();
    if rows.len() == 0 {
        panel.push(
            PanelRow {
                text: RowText::Plain(copied(log_placeholder(logs))),
                emphasis: Emphasis::Plain,
            },
        );
        proof {
            assert(panel_models(panel@) =~= expected);
        }
        return panel;
    }
    proof {
        assert(row_models(given).len() == given.len());
        assert(panel_models(panel@) =~= expected.take(0));
    }
    for row in it: rows
        invariant
            it.seq() == given,
            given.len() > 0,
            expected == panel_of(logs@, row_models(given)),
            panel_models(panel@) == expected.take(it.index() as int),
    {
        let ghost i = it.index() as int;
        let ghost before = panel@;
        let emphasis = row_emphasis(logs, row.entry_index);
        let text = highlight_search(row.text, logs.search_query.as_str());
        panel.push(PanelRow { text, emphasis });
        proof {
            assert(row_models(given)[i] == given[i]@);
            assert(expected[i] == (text@, emphasis));
            assert(panel_models(panel@) =~= panel_models(before).push((text@, emphasis)));
            assert(expected.take(i + 1) =~= expected.take(i).push(expected[i]));
        }
    }
    proof {
        assert(expected.take(given.len() as int) =~= expected);
    }
    panel
}

/// The rows of the log panel.
pub fn log_panel(app: &App) -> (panel: Vec<PanelRow>)
    ensures
        panel_models(panel@) == panel_of(
            app@.logs,
            app@.logs.visible(app@.log_rows(), app@.log_columns()),
        ),
{
    log_panel_of(&app.logs, app.visible_log_rows())
}

/// The cells of some containers.
pub open spec fn table_of(records: Seq<ContainerRecord>) -> Seq<Seq<Seq<char>>> {
    records.map_values(|record: ContainerRecord| cells_of(record@))
}

/// The texts of some lists of strings.
pub open spec fn tables(rows: Seq<Vec<String>>) -> Seq<Seq<Seq<char>>> {
    rows.map_values(|row: Vec<String>| texts(row@))
}

/// The cells of the listed containers.
pub fn container_table(app: &App) -> (rows: Vec<Vec<String>>)
    ensures
        tables(rows@) == table_of(app@.visible()),
{
    let containers = app.filtered_containers();
    let ghost listed = app@.visible();
    let ghost expected = table_of(listed);
    let mut rows: Vec<Vec<String>> = Vec::new();
    let mut i: usize = 0;
    proof {
        assert(tables(rows@) =~= expected.take(0));
    }
    while i < containers.len()
        invariant
            i <= containers@.len(),
            containers@.unref() == listed,
            containers@.len() == listed.len(),
            expected == table_of(listed),
            tables(rows@) == expected.take(i as int),
        decreases containers@.len() - i,
    {
        let ghost before = rows@;
        let cells = container_cells(containers[i]);
        rows.push(cells);
        proof {
            assert(containers@.unref()[i as int] == *containers@[i as int]);
            assert(expected[i as int] == texts(cells@));
            assert(tables(rows@) =~= tables(before).push(texts(cells@)));
            assert(expected.take(i + 1) =~= expected.take(i as int).push(expected[i as int]));
        }
        i += 1;
    }
    proof {
        assert(expected.take(i as int) =~= expected);
    }
    rows
}

/// The rows of the detail panel: padded labels and values, or that nothing is there.
pub open spec fn detail_rows_of(items: Seq<DetailItem>) -> Seq<(Seq<char>, Seq<char>)> {
    if items.len() == 0 {
        seq![("No data loaded"@, ""@)]
    } else {
        items.map_values(|item: DetailItem| (padded(item@.0, 18), item@.1))
    }
}

/// The characters of some pairs of strings.
pub open spec fn pairs(rows: Seq<(String, String)>) -> Seq<(Seq<char>, Seq<char>)> {
    rows.map_values(|row: (String, String)| (row.0@, row.1@))
}

/// The rows of the detail panel.
pub fn detail_panel(app: &App) -> (rows: Vec<(String, String)>)
    ensures
        pairs(rows@) == detail_rows_of(app@.items()),
{
    let items = app.selected_detail_items();
    let ghost shown = app@.items();
    let ghost expected = detail_rows_of(shown);
    let mut rows: Vec<(String, String)> = Vec::new();
    if items.len() == 0 {
        rows.push((copied("No data loaded"), copied("")));
        proof {
            assert(pairs(rows@) =~= expected);
        }
        return rows;
    }
    let mut i: usize = 0;
    proof {
        assert(pairs(rows@) =~= expected.take(0));
    }
    while i < items.len()
        invariant
            i <= items@.len(),
            items@ == shown,
            shown.len() > 0,
            expected == detail_rows_of(shown),
            pairs(rows@) == expected.take(i as int),
        decreases items@.len() - i,
    {
        let ghost before = rows@;
        let label = padded_label(items[i].label.as_str());
        let value = copied(items[i].value.as_str());
        rows.push((label, value));
        proof {
            assert(expected[i as int] == (label@, value@));
            assert(pairs(rows@) =~= pairs(before).push((label@, value@)));
            assert(expected.take(i + 1) =~= expected.take(i as int).push(expected[i as int]));
        }
        i += 1;
    }
    proof {
        assert(expected.take(i as int) =~= expected);
    }
    rows
}

// ---------------------------------------------------------------------------------------------
// The status line
// ---------------------------------------------------------------------------------------------

/// What the status line says: the text that is being typed, or the status.
pub open spec fn status_text(app: AppModel) -> Seq<char> {
    match app.input {
        Some((InputKind::LogFilter, value)) => "Filter: "@ + value,
        Some((InputKind::LogSearch, value)) => "Search: "@ + value,
        None => app.status,
    }
}

/// What the status line says.
pub fn status_line(app: &App) -> (text: String)
    ensures
        text@ == status_text(app@),
{
    match &app.input {
        Some(input) => match input.kind {
            InputKind::LogFilter => concat("Filter: ", input.value.as_str()),
            InputKind::LogSearch => concat("Search: ", input.value.as_str()),
        },
        None => copied(app.status.as_str()),
    }
}

// ---------------------------------------------------------------------------------------------
// Scrollbars and colours
// ---------------------------------------------------------------------------------------------

/// Which rows of a scrollbar belong to its thumb.
pub open spec fn thumb_rows(height: u16, top: u16, length: u16) -> Seq<bool> {
    Seq::new(height as nat, |row: int| top <= row < crate::layout::capped_sum(top, length))
}

/// Which rows of a scrollbar belong to its thumb.
pub fn scrollbar_rows(height: u16, top: u16, length: u16) -> (rows: Vec<bool>)
    ensures
        rows@ == thumb_rows(height, top, length),
{
    let mut rows: Vec<bool> = Vec::new();
    let end: u16 = top.saturating_add(length);
    let mut row: u16 = 0;
    while row < height
        invariant
            row <= height,
            end == crate::layout::capped_sum(top, length),
            rows@ == thumb_rows(row, top, length),
        decreases height - row,
    {
        rows.push(top <= row && row < end);
        row += 1;
        proof {
            assert(rows@ =~= thumb_rows(row, top, length));
        }
    }
    rows
}

/// The colours of a theme.
#[derive(Clone, Copy, Debug, PartialEq, Eq, Structural)]
pub struct Theme {
    pub background: Color,
    pub panel: Color,
    pub panel_alt: Color,
    pub text: Color,
    pub muted: Color,
    pub border: Color,
    pub accent: Color,
    pub selection: Color,
    pub selection_alt: Color,
    pub error: Color,
}

/// The colours of a theme.
pub open spec fn colours_of(name: ThemeName) -> Theme {
    match name {
        ThemeName::Graphite => Theme {
            background: Color::Rgb(17, 20, 24),
            panel: Color::Rgb(24, 28, 33),
            panel_alt: Color::Rgb(30, 35, 41),
            text: Color::Rgb(230, 236, 241),
            muted: Color::Rgb(132, 144, 156),
            border: Color::Rgb(73, 82, 91),
            accent: Color::Rgb(240, 113, 82),
            selection: Color::Rgb(56, 92, 129),
            selection_alt: Color::Rgb(42, 54, 66),
            error: Color::Rgb(232, 87, 87),
        },
        ThemeName::Ember => Theme {
            background: Color::Rgb(26, 18, 15),
            panel: Color::Rgb(38, 27, 22),
            panel_alt: Color::Rgb(49, 35, 28),
            text: Color::Rgb(248, 235, 222),
            muted: Color::Rgb(176, 150, 128),
            border: Color::Rgb(121, 85, 62),
            accent: Color::Rgb(239, 145, 70),
            selection: Color::Rgb(123, 74, 39),
            selection_alt: Color::Rgb(82, 52, 36),
            error: Color::Rgb(242, 96, 96),
        },
        ThemeName::Ocean => Theme {
            background: Color::Rgb(9, 21, 30),
            panel: Color::Rgb(14, 33, 46),
            panel_alt: Color::Rgb(19, 44, 59),
            text: Color::Rgb(224, 241, 245),
            muted: Color::Rgb(121, 155, 168),
            border: Color::Rgb(68, 103, 116),
            accent: Color::Rgb(70, 173, 209),
            selection: Color::Rgb(33, 89, 110),
            selection_alt: Color::Rgb(23, 58, 72),
            error: Color::Rgb(236, 100, 101),
        },
    }
}

/// The colours of a theme.
pub fn theme(name: ThemeName) -> (colours: Theme)
    ensures
        colours == colours_of(name),
{
    match name {
        ThemeName::Graphite => Theme {
            background: Color::Rgb(17, 20, 24),
            panel: Color::Rgb(24, 28, 33),
            panel_alt: Color::Rgb(30, 35, 41),
            text: Color::Rgb(230, 236, 241),
            muted: Color::Rgb(132, 144, 156),
            border: Color::Rgb(73, 82, 91),
            accent: Color::Rgb(240, 113, 82),
            selection: Color::Rgb(56, 92, 129),
            selection_alt: Color::Rgb(42, 54, 66),
            error: Color::Rgb(232, 87, 87),
        },
        ThemeName::Ember => Theme {
            background: Color::Rgb(26, 18, 15),
            panel: Color::Rgb(38, 27, 22),
            panel_alt: Color::Rgb(49, 35, 28),
            text: Color::Rgb(248, 235, 222),
            muted: Color::Rgb(176, 150, 128),
            border: Color::Rgb(121, 85, 62),
            accent: Color::Rgb(239, 145, 70),
            selection: Color::Rgb(123, 74, 39),
            selection_alt: Color::Rgb(82, 52, 36),
            error: Color::Rgb(242, 96, 96),
        },
        ThemeName::Ocean => Theme {
            background: Color::Rgb(9, 21, 30),
            panel: Color::Rgb(14, 33, 46),
            panel_alt: Color::Rgb(19, 44, 59),
            text: Color::Rgb(224, 241, 245),
            muted: Color::Rgb(121, 155, 168),
            border: Color::Rgb(68, 103, 116),
            accent: Color::Rgb(70, 173, 209),
            selection: Color::Rgb(33, 89, 110),
            selection_alt: Color::Rgb(23, 58, 72),
            error: Color::Rgb(236, 100, 101),
        },
    }
}

} // verus!
