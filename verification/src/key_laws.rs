//! Laws of the keys: what each key does.

use crate::docker::{ContainerAction, RequestModel};
use crate::keys::{
    binding, code_name, holds_with, is_bound, key_name, modifier_names, KeyCode, KeyEvent,
    KeyModifiers,
};
use crate::layout::{Rect, Sections};
use crate::model::LogFilterMode;
use crate::state::{AppModel, Focus, InputKind, UiModel};
use crate::tab::{tab_index, DetailTab};
use crate::text::{joined, lower_char, lowered, text_of};
use crate::text_laws::{lowering_forgets_the_case_alone, same_but_case};
use vstd::prelude::*;

verus! {

// ---------------------------------------------------------------------------------------------
// Which key is bound
// ---------------------------------------------------------------------------------------------

/// No modifier is held.
pub open spec fn bare() -> KeyModifiers {
    KeyModifiers { control: false, alt: false, shift: false }
}

/// A key is a character without modifiers.
pub open spec fn is_character(key: KeyEvent, c: char) -> bool {
    key.code == KeyCode::Char(c) && key.modifiers == bare()
}

/// A character key without modifiers has the binding of one character exactly if they are the
/// same but for the case.
pub proof fn a_character_is_bound_by_itself(key: KeyEvent, c: char, bound: char)
    requires
        is_character(key, c),
    ensures
        key_name(key) == seq![c],
        is_bound(key, seq![bound]) <==> same_but_case(seq![c], seq![bound]),
{
    assert(modifier_names(key.modifiers).push(seq![c]) =~= seq![seq![c]]);
    lowering_forgets_the_case_alone(seq![c], seq![bound]);
}

/// With control held, a character key is named by `ctrl+` and the character in lower case.
pub proof fn control_is_named(key: KeyEvent, c: char)
    requires
        key.code == KeyCode::Char(c),
        key.modifiers == (KeyModifiers { control: true, alt: false, shift: false }),
    ensures
        key_name(key) == seq!['c', 't', 'r', 'l', '+', lower_char(c)],
{
    reveal_strlit("ctrl");
    reveal_strlit("+");
    let own = seq![lower_char(c)];
    assert(modifier_names(key.modifiers).push(own) =~= seq!["ctrl"@, own]);
    let parts = seq!["ctrl"@, own];
    reveal_with_fuel(joined, 2);
    assert(parts.drop_last() =~= seq!["ctrl"@]);
    assert(joined(parts, "+"@) =~= seq!['c', 't', 'r', 'l', '+', lower_char(c)]);
}

/// A configured binding stands in place of the default one.
pub proof fn configured_bindings_win(configured: Seq<char>, default: Seq<char>)
    ensures
        binding(Some(configured), default) == configured,
        binding(None, default) == default,
{
}

/// The default bindings are in force, nothing is typed and nothing is to be confirmed.
pub open spec fn is_plain(app: AppModel) -> bool {
    &&& !app.confirm_remove
    &&& app.input is None
    &&& app.runtime.keymap.quit is None
    &&& app.runtime.keymap.toggle_stopped is None
    &&& app.runtime.keymap.copy is None
    &&& app.runtime.keymap.start_stop is None
    &&& app.runtime.keymap.restart is None
    &&& app.runtime.keymap.remove is None
}

/// What the default bindings say of a character key.
proof fn default_bindings(key: KeyEvent, c: char)
    requires
        is_character(key, c),
    ensures
        is_bound(key, "q"@) <==> c == 'q' || c == 'Q',
        is_bound(key, "a"@) <==> c == 'a' || c == 'A',
        is_bound(key, "y"@) <==> c == 'y' || c == 'Y',
        is_bound(key, "s"@) <==> c == 's' || c == 'S',
        is_bound(key, "r"@) <==> c == 'r' || c == 'R',
        is_bound(key, "D"@) <==> c == 'd' || c == 'D',
        !holds_with(
            key,
            Some(('c', KeyModifiers { control: true, alt: false, shift: false })),
        ),
{
    reveal_strlit("q");
    reveal_strlit("a");
    reveal_strlit("y");
    reveal_strlit("s");
    reveal_strlit("r");
    reveal_strlit("D");
    assert("q"@ =~= seq!['q']);
    assert("a"@ =~= seq!['a']);
    assert("y"@ =~= seq!['y']);
    assert("s"@ =~= seq!['s']);
    assert("r"@ =~= seq!['r']);
    assert("D"@ =~= seq!['D']);
    a_character_is_bound_by_itself(key, c, 'q');
    a_character_is_bound_by_itself(key, c, 'a');
    a_character_is_bound_by_itself(key, c, 'y');
    a_character_is_bound_by_itself(key, c, 's');
    a_character_is_bound_by_itself(key, c, 'r');
    a_character_is_bound_by_itself(key, c, 'D');
    let typed = seq![c];
    assert(typed[0] == c);
    assert(same_but_case(typed, seq!['q']) <==> c == 'q' || c == 'Q');
    assert(same_but_case(typed, seq!['a']) <==> c == 'a' || c == 'A');
    assert(same_but_case(typed, seq!['y']) <==> c == 'y' || c == 'Y');
    assert(same_but_case(typed, seq!['s']) <==> c == 's' || c == 'S');
    assert(same_but_case(typed, seq!['r']) <==> c == 'r' || c == 'R');
    assert(same_but_case(typed, seq!['D']) <==> c == 'd' || c == 'D');
}

// ---------------------------------------------------------------------------------------------
// Actions
// ---------------------------------------------------------------------------------------------

/// The key q quits, and so does c with control, whatever the bindings are.
pub proof fn two_keys_quit(app: AppModel, key: KeyEvent)
    requires
        !app.confirm_remove,
        app.input is None,
    ensures
        is_plain(app) && is_character(key, 'q') ==> app.after_key(key) == (
            app,
            seq![UiModel::Quit],
        ),
        key.code == KeyCode::Char('c') && key.modifiers.control ==> app.after_key(key) == (
            app,
            seq![UiModel::Quit],
        ),
{
    if is_character(key, 'q') {
        default_bindings(key, 'q');
    }
}

/// The keys s and r ask for the selected container to be started or stopped, and to be restarted.
/// Nothing else is asked, and nothing changes.
pub proof fn keys_act_on_the_selected_container(app: AppModel, key: KeyEvent, id: Seq<char>)
    requires
        is_plain(app),
        app.selected() is Some,
        app.selected()->0@.id == id,
    ensures
        is_character(key, 's') ==> app.after_key(key) == (
            app,
            seq![
                UiModel::Docker(
                    RequestModel::Action { id, action: ContainerAction::StartStop },
                ),
            ],
        ),
        is_character(key, 'r') ==> app.after_key(key) == (
            app,
            seq![UiModel::Docker(RequestModel::Action { id, action: ContainerAction::Restart })],
        ),
        is_character(key, 'D') ==> app.after_key(key).0.confirm_remove && app.after_key(key).1.len()
            == 0 && app.after_key(key).0.selected_id == app.selected_id,
{
    if is_character(key, 's') {
        default_bindings(key, 's');
    }
    if is_character(key, 'r') {
        default_bindings(key, 'r');
    }
    if is_character(key, 'D') {
        default_bindings(key, 'D');
    }
}

/// Without a selected container nothing is asked of the engine and nothing is to be confirmed.
pub proof fn keys_act_on_no_container(app: AppModel, key: KeyEvent)
    requires
        is_plain(app),
        app.selected() is None,
        is_character(key, 's') || is_character(key, 'r') || is_character(key, 'D'),
    ensures
        app.after_key(key) == (app, Seq::<UiModel>::empty()),
{
    if is_character(key, 's') {
        default_bindings(key, 's');
    }
    if is_character(key, 'r') {
        default_bindings(key, 'r');
    }
    if is_character(key, 'D') {
        default_bindings(key, 'D');
    }
}

/// The selected container is the one with the selected identifier.
pub proof fn the_selected_container_has_the_identifier(app: AppModel)
    requires
        app.selected() is Some,
    ensures
        app.selected_id == Some(app.selected()->0@.id),
        app.containers.contains(app.selected()->0),
{
    first_position(app.containers, app.selected_id->0, 0);
}

/// A position is that of a container with the identifier.
proof fn first_position(
    records: Seq<crate::model::ContainerRecord>,
    id: Seq<char>,
    from: int,
)
    requires
        0 <= from,
    ensures
        crate::state::position(records, id, from) matches Some(i) ==> from <= i < records.len()
            && records[i]@.id == id,
    decreases records.len() - from,
{
    if from < records.len() && records[from]@.id != id {
        first_position(records, id, from + 1);
    }
}

/// A removal is confirmed with Enter: the selected container is to be removed, and nothing is to
/// be confirmed any longer.
pub proof fn enter_confirms_a_removal(app: AppModel, key: KeyEvent)
    requires
        app.confirm_remove,
        key.code == KeyCode::Enter,
        app.selected() is Some,
    ensures
        app.after_key(key) == (
            AppModel { confirm_remove: false, ..app },
            seq![
                UiModel::Docker(
                    RequestModel::Action {
                        id: app.selected()->0@.id,
                        action: ContainerAction::Remove,
                    },
                ),
            ],
        ),
{
}

/// The key a shows the stopped containers or hides them again.
pub proof fn stopped_containers_are_toggled(app: AppModel, key: KeyEvent)
    requires
        is_plain(app),
        is_character(key, 'a'),
    ensures
        app.after_key(key).0.show_stopped == !app.show_stopped,
        app.after_key(key).0.containers == app.containers,
        app.after_key(key).0.project_filter == app.project_filter,
{
    default_bindings(key, 'a');
}

/// The key y copies: the identifier of the selected container where the list has the focus, and
/// otherwise the selected lines of the log, or the label and the value of the selected row.
pub proof fn what_has_the_focus_is_copied(app: AppModel, key: KeyEvent)
    requires
        is_plain(app),
        is_character(key, 'y'),
    ensures
        app.after_key(key).0 == app,
        app.focus == Focus::Containers && app.selected() is Some ==> app.after_key(key).1 == seq![
            UiModel::Copy(app.selected()->0@.id),
        ],
        app.focus == Focus::Containers && app.selected() is None ==> app.after_key(key).1.len()
            == 0,
        app.focus == Focus::Detail && app.detail_tab == DetailTab::Logs
            && app.logs.copied_text() is Some ==> app.after_key(key).1 == seq![
            UiModel::Copy(app.logs.copied_text()->0),
        ],
        app.focus == Focus::Detail && app.detail_tab != DetailTab::Logs && app.cursor()
            < app.items().len() ==> app.after_key(key).1 == seq![
            UiModel::Copy(
                app.items()[app.cursor()].label@ + seq![':', ' ']
                    + app.items()[app.cursor()].value@,
            ),
        ],
{
    default_bindings(key, 'y');
    reveal_strlit(": ");
    assert(": "@ =~= seq![':', ' ']);
}

// ---------------------------------------------------------------------------------------------
// Moving
// ---------------------------------------------------------------------------------------------

/// A key that is no character and has no modifiers is bound to nothing by default.
proof fn named_keys_are_free(app: AppModel, key: KeyEvent)
    requires
        is_plain(app),
        key.modifiers == bare(),
        !(key.code is Char),
    ensures
        app.after_key(key) == app.plain_key(key.code),
{
    reveal_strlit("q");
    reveal_strlit("a");
    reveal_strlit("y");
    reveal_strlit("s");
    reveal_strlit("r");
    reveal_strlit("D");
    reveal_strlit("tab");
    reveal_strlit("backtab");
    reveal_strlit("up");
    reveal_strlit("down");
    reveal_strlit("left");
    reveal_strlit("right");
    reveal_strlit("enter");
    reveal_strlit("esc");
    reveal_strlit("home");
    reveal_strlit("end");
    reveal_strlit("pageup");
    reveal_strlit("pagedown");
    reveal_strlit("delete");
    reveal_strlit("backspace");
    let name = key_name(key);
    match code_name(key) {
        Some(own) => {
            assert(modifier_names(key.modifiers).push(own) =~= seq![own]);
            assert(name == own);
        },
        None => {},
    }
    assert(name.len() != 1);
    assert(lowered(name).len() == name.len());
    assert(lowered("q"@).len() == 1 && lowered("a"@).len() == 1 && lowered("y"@).len() == 1);
    assert(lowered("s"@).len() == 1 && lowered("r"@).len() == 1 && lowered("D"@).len() == 1);
}

/// The number of rows by which a key moves the selection.
pub open spec fn rows_of_key(code: KeyCode) -> int {
    match code {
        KeyCode::Up => -1,
        KeyCode::Down => 1,
        KeyCode::PageUp => -10,
        KeyCode::PageDown => 10,
        _ => 0,
    }
}

/// A row that is some rows away, or the first or the last one where that is out of range.
pub open spec fn row_within(row: int, rows: int) -> int {
    if row < 0 {
        0
    } else if row >= rows {
        rows - 1
    } else {
        row
    }
}

/// Where the list has the focus, the arrows select the container next to the selected one, and
/// the page keys the one that is ten rows away, as far as the list goes.
pub proof fn arrows_move_in_the_list(app: AppModel, key: KeyEvent, row: int)
    requires
        is_plain(app),
        key.modifiers == bare(),
        rows_of_key(key.code) != 0,
        app.focus == Focus::Containers,
        app.selected_row() == Some(row),
        0 <= row < app.visible().len(),
    ensures
        app.after_key(key).0.selected_id == Some(
            app.visible()[row_within(row + rows_of_key(key.code), app.visible().len() as int)]@.id,
        ),
        app.after_key(key).0.containers == app.containers,
{
    named_keys_are_free(app, key);
}

/// Where the list has the focus, Home selects its first container and End its last one.
pub proof fn edges_of_the_list(app: AppModel, key: KeyEvent)
    requires
        is_plain(app),
        key.modifiers == bare(),
        app.focus == Focus::Containers,
        app.visible().len() > 0,
    ensures
        key.code == KeyCode::Home ==> app.after_key(key).0.selected_id == Some(
            app.visible()[0]@.id,
        ),
        key.code == KeyCode::End ==> app.after_key(key).0.selected_id == Some(
            app.visible()[app.visible().len() - 1]@.id,
        ),
{
    if key.code == KeyCode::Home || key.code == KeyCode::End {
        named_keys_are_free(app, key);
    }
}

/// Where the log has the focus, the arrows and the page keys move the selected line.
pub proof fn arrows_move_in_the_log(app: AppModel, key: KeyEvent)
    requires
        is_plain(app),
        key.modifiers == bare(),
        rows_of_key(key.code) != 0,
        app.focus == Focus::Detail,
        app.detail_tab == DetailTab::Logs,
        0 <= app.logs.selected < app.logs.filtered().len(),
    ensures
        app.after_key(key).0.logs.selected == row_within(
            app.logs.selected + rows_of_key(key.code),
            app.logs.filtered().len() as int,
        ),
        app.after_key(key).0.logs.follow <==> app.after_key(key).0.logs.selected
            == app.logs.filtered().len() - 1,
        app.after_key(key).0.selected_id == app.selected_id,
{
    named_keys_are_free(app, key);
}

/// Where another tab has the focus, the arrows and the page keys move its selected row.
pub proof fn arrows_move_in_the_tab(app: AppModel, key: KeyEvent)
    requires
        is_plain(app),
        key.modifiers == bare(),
        rows_of_key(key.code) != 0,
        app.focus == Focus::Detail,
        app.detail_tab != DetailTab::Logs,
        app.detail_cursor.len() == 6,
        0 < app.items().len() <= usize::MAX,
    ensures
        app.after_key(key).0.cursor() == row_within(
            app.cursor() + rows_of_key(key.code),
            app.items().len() as int,
        ),
        app.after_key(key).0.selected_id == app.selected_id,
{
    named_keys_are_free(app, key);
}

/// The keys k and j do what the arrows up and down do.
pub proof fn letters_move_like_arrows(app: AppModel, letter: KeyEvent, arrow: KeyEvent)
    requires
        is_plain(app),
        arrow.modifiers == bare(),
        (is_character(letter, 'k') && arrow.code == KeyCode::Up) || (is_character(letter, 'j')
            && arrow.code == KeyCode::Down),
    ensures
        app.after_key(letter) == app.after_key(arrow),
{
    named_keys_are_free(app, arrow);
    if is_character(letter, 'k') {
        default_bindings(letter, 'k');
    } else {
        default_bindings(letter, 'j');
    }
}

/// The tab key, with shift or without, gives the focus to the other part of the screen.
pub proof fn the_tab_key_switches_the_focus(app: AppModel, key: KeyEvent)
    requires
        is_plain(app),
        key.modifiers == bare(),
        key.code == KeyCode::Tab || key.code == KeyCode::BackTab,
    ensures
        app.after_key(key) == (
            AppModel {
                focus: if app.focus == Focus::Containers {
                    Focus::Detail
                } else {
                    Focus::Containers
                },
                ..app
            },
            Seq::<UiModel>::empty(),
        ),
{
    named_keys_are_free(app, key);
}

/// Left and right show the tab beside the shown one, round the ends, where the detail pane has
/// the focus; elsewhere they do nothing.
pub proof fn arrows_show_the_tabs(app: AppModel, key: KeyEvent)
    requires
        is_plain(app),
        key.modifiers == bare(),
        key.code == KeyCode::Left || key.code == KeyCode::Right,
    ensures
        app.focus == Focus::Containers ==> app.after_key(key) == (app, Seq::<UiModel>::empty()),
        app.focus == Focus::Detail && key.code == KeyCode::Right ==> tab_index(
            app.after_key(key).0.detail_tab,
        ) == (tab_index(app.detail_tab) + 1) % 6,
        app.focus == Focus::Detail && key.code == KeyCode::Left ==> tab_index(app.detail_tab) == (
        tab_index(app.after_key(key).0.detail_tab) + 1) % 6,
{
    named_keys_are_free(app, key);
}

// ---------------------------------------------------------------------------------------------
// The log
// ---------------------------------------------------------------------------------------------

/// The keys of the log: what each of them changes, and that it changes nothing else of how the
/// log is looked at.
pub proof fn keys_of_the_log(app: AppModel, key: KeyEvent)
    requires
        is_plain(app),
        app.detail_tab == DetailTab::Logs,
    ensures
        is_character(key, '/') ==> app.after_key(key).0 == (AppModel {
            input: Some((InputKind::LogSearch, app.logs.search_query)),
            ..app
        }),
        is_character(key, 'f') ==> app.after_key(key).0 == (AppModel {
            input: Some((InputKind::LogFilter, app.logs.filter_query)),
            ..app
        }),
        is_character(key, 'm') ==> (app.after_key(key).0.logs.filter_mode == LogFilterMode::Regex
            <==> app.logs.filter_mode == LogFilterMode::Substring)
            && app.after_key(key).0.logs.filter_query == app.logs.filter_query,
        is_character(key, 'n') ==> app.after_key(key).0.logs == app.logs.searched(false).in_view(
            app.log_rows(),
        ),
        is_character(key, 'N') ==> app.after_key(key).0.logs == app.logs.searched(true).in_view(
            app.log_rows(),
        ),
        is_character(key, ' ') ==> app.after_key(key).0.logs.follow == !app.logs.follow,
        is_character(key, 'w') ==> app.after_key(key).0.logs.wrap == !app.logs.wrap
            && app.after_key(key).0.logs.show_timestamps == app.logs.show_timestamps,
        is_character(key, 't') ==> app.after_key(key).0.logs.show_timestamps
            == !app.logs.show_timestamps && app.after_key(key).0.logs.wrap == app.logs.wrap,
{
    if key.code is Char {
        let c = key.code->Char_0;
        if is_character(key, c) {
            default_bindings(key, c);
        }
    }
}

/// Outside the log its keys do nothing.
pub proof fn keys_of_the_log_wait(app: AppModel, key: KeyEvent, c: char)
    requires
        is_plain(app),
        app.detail_tab != DetailTab::Logs,
        is_character(key, c),
        c == '/' || c == 'f' || c == 'm' || c == 'n' || c == 'N' || c == ' ' || c == 'w' || c
            == 't',
    ensures
        app.after_key(key) == (app, Seq::<UiModel>::empty()),
{
    default_bindings(key, c);
}

/// A typed text counts when Enter is pressed: it becomes the filter, or the text that is searched,
/// and the other one stays. With Esc it is forgotten.
pub proof fn typed_texts_count_with_enter(
    app: AppModel,
    key: KeyEvent,
    kind: InputKind,
    value: Seq<char>,
)
    requires
        !app.confirm_remove,
        app.input == Some((kind, value)),
    ensures
        key.code == KeyCode::Enter && kind == InputKind::LogFilter ==> {
            &&& app.after_key(key).0.logs.filter_query == value
            &&& app.after_key(key).0.logs.search_query == app.logs.search_query
            &&& app.after_key(key).0.input is None
        },
        key.code == KeyCode::Enter && kind == InputKind::LogSearch ==> {
            &&& app.after_key(key).0.logs.search_query == value
            &&& app.after_key(key).0.logs.filter_query == app.logs.filter_query
            &&& app.after_key(key).0.logs == app.logs.with_search(value).in_view(app.log_rows())
            &&& app.after_key(key).0.input is None
        },
        key.code == KeyCode::Esc ==> app.after_key(key).0 == (AppModel { input: None, ..app }),
        app.after_key(key).1.len() == 0,
{
}


// ---------------------------------------------------------------------------------------------
// Names of keys
// ---------------------------------------------------------------------------------------------

/// A key without modifiers has its own name, and modifiers stand before it in their order, with
/// plus signs between them.
pub proof fn keys_have_their_names(key: KeyEvent)
    requires
        key.modifiers == bare(),
    ensures
        key.code == KeyCode::Tab ==> key_name(key) == "tab"@,
        key.code == KeyCode::BackTab ==> key_name(key) == "backtab"@,
        key.code == KeyCode::Up ==> key_name(key) == "up"@,
        key.code == KeyCode::Down ==> key_name(key) == "down"@,
        key.code == KeyCode::Left ==> key_name(key) == "left"@,
        key.code == KeyCode::Right ==> key_name(key) == "right"@,
        key.code == KeyCode::Enter ==> key_name(key) == "enter"@,
        key.code == KeyCode::Esc ==> key_name(key) == "esc"@,
        key.code == KeyCode::Home ==> key_name(key) == "home"@,
        key.code == KeyCode::End ==> key_name(key) == "end"@,
        key.code == KeyCode::PageUp ==> key_name(key) == "pageup"@,
        key.code == KeyCode::PageDown ==> key_name(key) == "pagedown"@,
        key.code == KeyCode::Delete ==> key_name(key) == "delete"@,
        key.code == KeyCode::Backspace ==> key_name(key) == "backspace"@,
        key.code == KeyCode::Other ==> key_name(key).len() == 0,
{
    if code_name(key) is Some {
        let own = code_name(key)->0;
        assert(modifier_names(key.modifiers).push(own) =~= seq![own]);
    }
}

/// A modifier that is held stands before the name with a plus sign: control before alt, and that
/// before shift.
pub proof fn modifiers_stand_in_order(key: KeyEvent, name: Seq<char>)
    requires
        code_name(key) == Some(name),
    ensures
        key.modifiers == (KeyModifiers { control: true, alt: true, shift: true }) ==> key_name(key)
            == "ctrl"@ + "+"@ + "alt"@ + "+"@ + "shift"@ + "+"@ + name,
        key.modifiers == (KeyModifiers { control: false, alt: true, shift: false }) ==> key_name(
            key,
        ) == "alt"@ + "+"@ + name,
        key.modifiers == (KeyModifiers { control: false, alt: false, shift: true }) ==> key_name(
            key,
        ) == "shift"@ + "+"@ + name,
{
    reveal_with_fuel(joined, 4);
    let all = seq!["ctrl"@, "alt"@, "shift"@, name];
    assert(all.drop_last() =~= seq!["ctrl"@, "alt"@, "shift"@]);
    assert(all.drop_last().drop_last() =~= seq!["ctrl"@, "alt"@]);
    assert(all.drop_last().drop_last().drop_last() =~= seq!["ctrl"@]);
    assert(seq!["alt"@, name].drop_last() =~= seq!["alt"@]);
    assert(seq!["shift"@, name].drop_last() =~= seq!["shift"@]);
    if key.modifiers == (KeyModifiers { control: true, alt: true, shift: true }) {
        assert(modifier_names(key.modifiers).push(name) =~= all);
    }
    if key.modifiers == (KeyModifiers { control: false, alt: true, shift: false }) {
        assert(modifier_names(key.modifiers).push(name) =~= seq!["alt"@, name]);
    }
    if key.modifiers == (KeyModifiers { control: false, alt: false, shift: true }) {
        assert(modifier_names(key.modifiers).push(name) =~= seq!["shift"@, name]);
    }
}

/// A configured binding is the one that counts: a key that it names quits, and the key q no longer
/// does where it is bound otherwise.
pub proof fn configured_keys_quit(app: AppModel, key: KeyEvent, bound: String)
    requires
        !app.confirm_remove,
        app.input is None,
        app.runtime.keymap.quit == Some(bound),
    ensures
        same_but_case(key_name(key), bound@) ==> app.after_key(key) == (app, seq![UiModel::Quit]),
{
    lowering_forgets_the_case_alone(key_name(key), bound@);
}

/// Each action has its own configured binding.
pub proof fn configured_keys_act(app: AppModel, key: KeyEvent, bound: String, id: Seq<char>)
    requires
        !app.confirm_remove,
        app.input is None,
        app.selected() is Some && app.selected()->0@.id == id,
        same_but_case(key_name(key), bound@),
        key.code == KeyCode::Delete,
        !is_bound(key, binding(text_of(app.runtime.keymap.quit), "q"@)),
        !is_bound(key, binding(text_of(app.runtime.keymap.toggle_stopped), "a"@)),
        !is_bound(key, binding(text_of(app.runtime.keymap.copy), "y"@)),
    ensures
        app.runtime.keymap.start_stop == Some(bound) ==> app.after_key(key).1 == seq![
            UiModel::Docker(RequestModel::Action { id, action: ContainerAction::StartStop }),
        ],
        app.runtime.keymap.restart == Some(bound) && !is_bound(
            key,
            binding(text_of(app.runtime.keymap.start_stop), "s"@),
        ) ==> app.after_key(key).1 == seq![
            UiModel::Docker(RequestModel::Action { id, action: ContainerAction::Restart }),
        ],
        app.runtime.keymap.remove == Some(bound) && !is_bound(
            key,
            binding(text_of(app.runtime.keymap.start_stop), "s"@),
        ) && !is_bound(key, binding(text_of(app.runtime.keymap.restart), "r"@)) ==> app.after_key(
            key,
        ).0.confirm_remove && app.after_key(key).1.len() == 0,
{
    lowering_forgets_the_case_alone(key_name(key), bound@);
}

/// Moving in a tab keeps the selected rows of the other tabs.
pub proof fn other_tabs_keep_their_rows(app: AppModel, row: int, tab: DetailTab)
    requires
        app.detail_cursor.len() == 6,
        tab != app.detail_tab,
    ensures
        app.with_cursor(row).detail_cursor[tab_index(tab) as int]
            == app.detail_cursor[tab_index(tab) as int],
        app.with_tab(tab).detail_cursor == app.detail_cursor,
        app.with_tab(tab).detail_tab == tab,
{
}

/// The help tells the keys, and in the log those of the log behind them; it goes to the status
/// line.
pub proof fn the_help_tells_the_keys(app: AppModel, key: KeyEvent)
    requires
        is_plain(app),
        is_character(key, '?') || is_character(key, 'h'),
    ensures
        app.after_key(key).0 == app,
        app.detail_tab != DetailTab::Logs ==> app.after_key(key).1 == seq![
            UiModel::SetStatus(
                "q"@ + " quit | tab focus | arrows move | 1-6 tabs | "@ + "y"@ + " copy | "@
                    + "a"@ + " toggle stopped | "@ + "s"@ + " start/stop | "@ + "r"@
                    + " restart | "@ + "D"@ + " remove"@,
            ),
        ],
        app.detail_tab == DetailTab::Logs ==> app.after_key(key).1 == seq![
            UiModel::SetStatus(
                AppModel { detail_tab: DetailTab::Env, ..app }.help()
                    + " | / search | f filter | m regex | space follow | w wrap | t timestamps | mouse drag select | drag scrollbar"@,
            ),
        ],
{
    let c = key.code->Char_0;
    default_bindings(key, c);
}


/// An upper-case letter that is typed with the shift key has the binding of that letter, and not
/// that of the lower-case one.
pub proof fn shifted_letters_are_bound(key: KeyEvent, c: char, lower: char)
    requires
        'A' <= c <= 'Z',
        key.code == KeyCode::Char(c),
        key.modifiers == (KeyModifiers { control: false, alt: false, shift: true }),
        lower as u32 == c as u32 + 32,
    ensures
        is_bound(key, seq![c]),
        !is_bound(key, seq![lower]),
{
    modifiers_stand_in_order(key, seq![c]);
    reveal_strlit("shift");
    reveal_strlit("+");
    assert(key_name(key).len() == 7);
    assert(lowered(key_name(key)).len() == 7);
    assert(lowered(seq![lower]).len() == 1);
    assert(seq![lower][0] == lower);
    assert(seq![c][0] == c);
}

/// To remove a container has to be confirmed: the status says how.
pub proof fn a_removal_is_asked_for(app: AppModel, key: KeyEvent)
    requires
        is_plain(app),
        is_character(key, 'D'),
        app.selected() is Some,
    ensures
        app.after_key(key) == (
            AppModel {
                confirm_remove: true,
                status: "Press Enter to remove the selected container, or Esc to cancel"@,
                ..app
            },
            Seq::<UiModel>::empty(),
        ),
{
    default_bindings(key, 'D');
}

/// While a removal is to be confirmed, keys other than Enter and Esc do nothing.
pub proof fn other_keys_wait_for_the_answer(app: AppModel, key: KeyEvent)
    requires
        app.confirm_remove,
    ensures
        key.code != KeyCode::Enter && key.code != KeyCode::Esc ==> app.after_key(key) == (
            app,
            Seq::<UiModel>::empty(),
        ),
        key.code == KeyCode::Esc ==> app.after_key(key).0 == (AppModel {
            confirm_remove: false,
            status: "Remove canceled"@,
            last_error: None,
            ..app
        }),
{
}

/// While a text is typed, characters are put behind it, and keys that do not belong to it do
/// nothing.
pub proof fn characters_are_typed(
    app: AppModel,
    key: KeyEvent,
    kind: InputKind,
    value: Seq<char>,
    c: char,
)
    requires
        !app.confirm_remove,
        app.input == Some((kind, value)),
    ensures
        key.code == KeyCode::Char(c) ==> app.after_key(key) == (
            AppModel { input: Some((kind, value.push(c))), ..app },
            Seq::<UiModel>::empty(),
        ),
        key.code == KeyCode::Backspace && value.len() > 0 ==> app.after_key(key) == (
            AppModel { input: Some((kind, value.take(value.len() - 1))), ..app },
            Seq::<UiModel>::empty(),
        ),
        key.code == KeyCode::Backspace && value.len() == 0 ==> app.after_key(key).0.input == Some(
            (kind, value),
        ),
        key.code == KeyCode::Up || key.code == KeyCode::Down || key.code == KeyCode::Tab
            ==> app.after_key(key) == (app, Seq::<UiModel>::empty()),
{
    assert(value.len() > 0 ==> value.drop_last() =~= value.take(value.len() - 1));
}

/// Characters that are bound to nothing do nothing.
pub proof fn other_characters_do_nothing(app: AppModel, key: KeyEvent, c: char)
    requires
        is_plain(app),
        is_character(key, c),
        'u' <= c <= 'v' || c == 'x' || c == 'z' || c == 'b' || c == 'c' || c == 'e' || c == 'g'
            || c == 'i' || c == 'l' || c == 'o' || c == 'p' || c == '0' || c == '7' || c == '8'
            || c == '9',
    ensures
        app.after_key(key) == (app, Seq::<UiModel>::empty()),
{
    default_bindings(key, c);
}

/// The digits show the tabs, in the order in which they stand.
pub proof fn digits_show_tabs(app: AppModel, key: KeyEvent)
    requires
        is_plain(app),
    ensures
        is_character(key, '1') ==> app.after_key(key).0.detail_tab == DetailTab::Logs,
        is_character(key, '2') ==> app.after_key(key).0.detail_tab == DetailTab::Overview,
        is_character(key, '3') ==> app.after_key(key).0.detail_tab == DetailTab::Env,
        is_character(key, '4') ==> app.after_key(key).0.detail_tab == DetailTab::Ports,
        is_character(key, '5') ==> app.after_key(key).0.detail_tab == DetailTab::Mounts,
        is_character(key, '6') ==> app.after_key(key).0.detail_tab == DetailTab::Health,
{
    if key.code is Char {
        let c = key.code->Char_0;
        if is_character(key, c) {
            default_bindings(key, c);
        }
    }
}

/// Where the detail pane has the focus, Home selects the first line or row, and End the last one;
/// at the end of the log the end is followed.
pub proof fn edges_of_the_detail_pane(app: AppModel, key: KeyEvent)
    requires
        is_plain(app),
        key.modifiers == bare(),
        app.focus == Focus::Detail,
        app.detail_cursor.len() == 6,
        0 < app.items().len() <= usize::MAX,
        app.logs.filtered().len() > 0,
    ensures
        app.detail_tab == DetailTab::Logs && key.code == KeyCode::Home ==> app.after_key(
            key,
        ).0.logs.selected == 0 && !app.after_key(key).0.logs.follow,
        app.detail_tab == DetailTab::Logs && key.code == KeyCode::End ==> app.after_key(
            key,
        ).0.logs.selected == app.logs.filtered().len() - 1 && app.after_key(key).0.logs.follow,
        app.detail_tab != DetailTab::Logs && key.code == KeyCode::Home ==> app.after_key(
            key,
        ).0.cursor() == 0,
        app.detail_tab != DetailTab::Logs && key.code == KeyCode::End ==> app.after_key(
            key,
        ).0.cursor() == app.items().len() - 1,
{
    if key.code == KeyCode::Home || key.code == KeyCode::End {
        named_keys_are_free(app, key);
    }
}

/// A tab is scrolled so that its selected row is visible, and the list so that the selected
/// container is; without a selected container the list stands at its top.
pub proof fn what_is_selected_is_visible(app: AppModel, row: int)
    requires
        app.detail_offset >= 0,
    ensures
        app.detail_in_view().detail_offset <= app.cursor() < app.detail_in_view().detail_offset
            + app.detail_rows(),
        app.selected_row() is None ==> app.list_in_view().container_offset == 0,
        app.selected_row() == Some(row) ==> app.list_in_view().container_offset <= row
            < app.list_in_view().container_offset + app.list_rows(),
{
}


/// When the screen has another size, what is selected is visible in it.
pub proof fn another_size_shows_the_selection(
    app: AppModel,
    viewport: Rect,
    sections: Sections,
    row: int,
)
    requires
        app.detail_offset >= 0,
        app.logs.scroll_top >= 0,
        app.logs.selected >= 0,
    ensures
        ({
            let next = app.resized(viewport, sections);
            &&& next.viewport == viewport && next.sections == sections
            &&& next.selected_row() == app.selected_row()
            &&& app.selected_row() == Some(row) ==> next.container_offset <= row
                < next.container_offset + next.list_rows()
            &&& next.detail_offset <= next.cursor() < next.detail_offset + next.detail_rows()
            &&& next.logs.filtered().len() > 0 ==> next.logs.scroll_top <= next.logs.selected
                < next.logs.scroll_top + next.log_rows()
        }),
{
    let other = AppModel { viewport, sections, ..app }.list_in_view().detail_in_view();
    assert(other.visible() == app.visible());
    if other.logs.filtered().len() > 0 {
        crate::logs::window_holds_the_selection(other.logs, other.log_rows());
    }
}

} // verus!
