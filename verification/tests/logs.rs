use dui::logs::{passes_filter, push_rows, shifted, LogView, VisibleLogRow};
use dui::model::{LogEntry, LogFilterMode};

fn entries(lines: &[&str]) -> Vec<LogEntry> {
    lines.iter().map(|line| LogEntry::parse("stdout", line)).collect()
}

fn view(lines: &[&str]) -> LogView {
    let mut logs = LogView::new(true, 100);
    logs.append(entries(lines));
    logs
}

fn shown(logs: &LogView) -> Vec<String> {
    logs.filtered_entries().iter().map(|entry| entry.display(logs.show_timestamps)).collect()
}

#[test]
fn log_view_substring_filter_works() {
    let mut logs = LogView::new(true, 100);
    logs.append(vec![
        LogEntry::parse("stdout", "server listening\n"),
        LogEntry::parse("stdout", "database ready\n"),
    ]);
    logs.set_filter_query("server".into());
    assert_eq!(logs.filtered_entries().len(), 1);
    assert_eq!(logs.filtered_entries()[0].display(logs.show_timestamps), "server listening");
}

#[test]
fn log_view_regex_filter_works() {
    let mut logs = LogView::new(true, 100);
    logs.append(vec![
        LogEntry::parse("stdout", "GET /health 200\n"),
        LogEntry::parse("stdout", "GET /ready 500\n"),
    ]);
    logs.toggle_filter_mode();
    logs.set_filter_query(r"5\d\d$".into());
    assert_eq!(logs.filtered_entries().len(), 1);
}

#[test]
fn log_view_mouse_selection_copies_range() {
    let mut logs = LogView::new(true, 100);
    logs.append(vec![
        LogEntry::parse("stdout", "first\n"),
        LogEntry::parse("stdout", "second\n"),
        LogEntry::parse("stdout", "third\n"),
    ]);
    logs.start_mouse_selection(0, 10);
    logs.update_mouse_selection(2, 10);
    assert_eq!(logs.selected_text().as_deref(), Some("first\nsecond\nthird"));
}

#[test]
fn log_view_visible_rows_are_virtualized() {
    let mut logs = LogView::new(true, 100);
    logs.append(vec![
        LogEntry::parse("stdout", "alpha\n"),
        LogEntry::parse("stdout", "beta\n"),
        LogEntry::parse("stdout", "gamma\n"),
    ]);
    logs.follow = false;
    logs.selected = 2;
    logs.ensure_visible(2);
    let rows = logs.visible_rows(2, 40);
    assert_eq!(rows.len(), 2);
    assert_eq!(rows[0].text, "beta");
    assert_eq!(rows[1].text, "gamma");
}

#[test]
fn filter_ignores_case_and_white_space_round_the_query() {
    let mut logs = view(&["Server up\n", "database\n", "SERVER down\n"]);
    logs.set_filter_query("  server ".into());
    assert_eq!(shown(&logs), vec!["Server up", "SERVER down"]);
    logs.set_filter_query("   ".into());
    assert_eq!(logs.filtered_len(), 3);
}

#[test]
fn regex_filter_respects_case_and_keeps_nothing_when_it_is_wrong() {
    let mut logs = view(&["Server up\n", "server down\n"]);
    logs.toggle_filter_mode();
    logs.set_filter_query("^server".into());
    assert_eq!(shown(&logs), vec!["server down"]);
    assert_eq!(logs.regex_error(), None);
    logs.set_filter_query("(".into());
    assert_eq!(logs.filtered_len(), 0);
    assert!(logs.regex_error().expect("an error").contains("unclosed group"));
    logs.toggle_filter_mode();
    assert_eq!(logs.regex_error(), None);
}

#[test]
fn passes_filter_takes_the_verdict_of_the_regular_expression() {
    assert!(passes_filter(LogFilterMode::Regex, "", "anything", None));
    assert!(!passes_filter(LogFilterMode::Regex, "x", "x", None));
    assert!(!passes_filter(LogFilterMode::Regex, "x", "x", Some(false)));
    assert!(passes_filter(LogFilterMode::Regex, "x", "y", Some(true)));
    assert!(passes_filter(LogFilterMode::Substring, "B", "abc", None));
    assert!(!passes_filter(LogFilterMode::Substring, "d", "abc", Some(true)));
}

#[test]
fn oldest_lines_go_when_the_log_is_full() {
    let mut logs = LogView::new(true, 3);
    logs.append(entries(&["1", "2"]));
    logs.append(entries(&["3", "4"]));
    assert_eq!(shown(&logs), vec!["2", "3", "4"]);
    assert_eq!(logs.selected, 2);
    logs.append(Vec::new());
    assert_eq!(logs.entries.len(), 3);
    let mut none = LogView::new(true, 0);
    none.append(entries(&["1"]));
    assert_eq!(none.entries.len(), 0);
    assert_eq!(none.selected, 0);
}

#[test]
fn append_keeps_the_selection_where_the_end_is_not_followed() {
    let mut logs = view(&["a", "b", "c"]);
    logs.move_selection(-1);
    assert!(!logs.follow);
    logs.append(entries(&["d"]));
    assert_eq!(logs.selected, 1);
}

#[test]
fn move_selection_stops_at_the_ends() {
    let mut logs = view(&["a", "b", "c"]);
    logs.move_selection(-10);
    assert_eq!((logs.selected, logs.follow), (0, false));
    logs.move_selection(1);
    assert_eq!((logs.selected, logs.follow), (1, false));
    logs.move_selection(10);
    assert_eq!((logs.selected, logs.follow), (2, true));
    let mut empty = LogView::new(true, 10);
    empty.selected = 4;
    empty.move_selection(1);
    assert_eq!(empty.selected, 0);
}

#[test]
fn jump_to_edge_follows_only_the_end() {
    let mut logs = view(&["a", "b", "c"]);
    logs.jump_to_edge(false);
    assert_eq!((logs.selected, logs.follow), (0, false));
    logs.jump_to_edge(true);
    assert_eq!((logs.selected, logs.follow), (2, true));
}

#[test]
fn search_goes_round_in_both_directions() {
    let mut logs = view(&["hit 0", "miss", "HIT 2", "miss", "hit 4"]);
    logs.jump_to_edge(false);
    logs.set_search_query("hit".into());
    assert_eq!(logs.selected, 2);
    logs.jump_to_match(false);
    assert_eq!(logs.selected, 4);
    logs.jump_to_match(false);
    assert_eq!(logs.selected, 0);
    logs.jump_to_match(true);
    assert_eq!(logs.selected, 4);
    logs.jump_to_match(true);
    assert_eq!(logs.selected, 2);
    assert!(!logs.follow);
}

#[test]
fn search_stays_where_nothing_is_found() {
    let mut logs = view(&["one", "two"]);
    logs.set_search_query("three".into());
    assert_eq!((logs.selected, logs.follow), (1, true));
    logs.set_search_query("  ".into());
    assert_eq!((logs.selected, logs.follow), (1, true));
    logs.set_search_query("two".into());
    assert_eq!((logs.selected, logs.follow), (1, false));
}

#[test]
fn toggles_turn_back() {
    let mut logs = view(&["a", "b"]);
    logs.toggle_follow();
    assert!(!logs.follow);
    logs.selected = 0;
    logs.toggle_follow();
    assert_eq!((logs.selected, logs.follow), (1, true));
    logs.toggle_filter_mode();
    assert_eq!(logs.filter_mode, LogFilterMode::Regex);
    logs.toggle_filter_mode();
    assert_eq!(logs.filter_mode, LogFilterMode::Substring);
}

#[test]
fn filter_query_selects_the_last_line() {
    let mut logs = view(&["a1", "a2", "b", "a3"]);
    logs.set_filter_query("a".into());
    assert_eq!((logs.selected, logs.scroll_top), (2, 2));
}

#[test]
fn ensure_visible_moves_the_window_as_little_as_can_be() {
    let mut logs = view(&["0", "1", "2", "3", "4", "5"]);
    logs.ensure_visible(2);
    assert_eq!((logs.scroll_top, logs.selected), (4, 5));
    logs.follow = false;
    logs.selected = 1;
    logs.ensure_visible(2);
    assert_eq!(logs.scroll_top, 1);
    logs.selected = 4;
    logs.ensure_visible(2);
    assert_eq!(logs.scroll_top, 3);
    logs.selected = 99;
    logs.ensure_visible(0);
    assert_eq!((logs.scroll_top, logs.selected), (5, 5));
    logs.clear();
    logs.selected = 3;
    logs.ensure_visible(2);
    assert_eq!((logs.scroll_top, logs.selected), (0, 0));
}

#[test]
fn set_scroll_top_takes_the_selection_along() {
    let mut logs = view(&["0", "1", "2", "3", "4", "5"]);
    logs.set_scroll_top(1, 3);
    assert_eq!((logs.scroll_top, logs.selected, logs.follow), (1, 3, false));
    logs.set_scroll_top(99, 3);
    assert_eq!((logs.scroll_top, logs.selected), (3, 3));
    logs.set_scroll_top(0, 5);
    assert_eq!((logs.scroll_top, logs.selected), (0, 3));
    let mut empty = LogView::new(true, 10);
    empty.set_scroll_top(3, 2);
    assert_eq!((empty.scroll_top, empty.selected), (0, 0));
}

#[test]
fn wrapped_lines_take_several_rows() {
    let mut logs = view(&["one two three", "four"]);
    logs.wrap = true;
    logs.follow = false;
    logs.selected = 0;
    let rows = logs.visible_rows(10, 7);
    let found: Vec<(usize, &str)> =
        rows.iter().map(|row| (row.entry_index, row.text.as_str())).collect();
    assert_eq!(found, vec![(0, "one two"), (0, "three"), (1, "four")]);
    assert_eq!(logs.visible_rows(1, 7).len(), 1);
    assert_eq!(logs.visible_rows(0, 7).len(), 0);
}

#[test]
fn push_rows_stops_at_the_height() {
    let mut rows: Vec<VisibleLogRow> = Vec::new();
    push_rows(&mut rows, 4, vec!["a".to_string(), "b".to_string()], 3);
    push_rows(&mut rows, 5, vec!["c".to_string(), "d".to_string()], 3);
    let found: Vec<(usize, &str)> =
        rows.iter().map(|row| (row.entry_index, row.text.as_str())).collect();
    assert_eq!(found, vec![(4, "a"), (4, "b"), (5, "c")]);
}

#[test]
fn range_can_be_drawn_upwards() {
    let mut logs = view(&["a", "b", "c", "d"]);
    logs.start_mouse_selection(3, 10);
    logs.update_mouse_selection(1, 10);
    assert_eq!(logs.selected_range(), Some((1, 3)));
    assert_eq!(logs.selected_text().as_deref(), Some("b\nc\nd"));
    logs.finish_drag();
    logs.update_mouse_selection(0, 10);
    assert_eq!(logs.selected_range(), Some((1, 3)));
    logs.move_selection(1);
    assert_eq!(logs.selected_range(), None);
    assert_eq!(logs.selected_text().as_deref(), Some("c"));
}

#[test]
fn range_beyond_the_lines_is_cut() {
    let mut logs = view(&["a", "b"]);
    logs.selection_anchor = Some(1);
    logs.selection_end = Some(9);
    assert_eq!(logs.selected_text().as_deref(), Some("b"));
    logs.set_filter_query("zzz".into());
    assert_eq!(logs.selected_text(), None);
    assert!(logs.selected_entry().is_none());
}

#[test]
fn begin_loading_forgets_the_lines_but_not_the_filter() {
    let mut logs = view(&["a", "b"]);
    logs.set_filter_query("a".into());
    logs.toggle_follow();
    logs.begin_loading(Some("abc".into()));
    assert!(logs.loading && logs.follow);
    assert_eq!(logs.entries.len(), 0);
    assert_eq!(logs.container_id.as_deref(), Some("abc"));
    assert_eq!(logs.filter_query, "a");
    logs.finish_loading();
    assert!(!logs.loading);
    logs.begin_loading(None);
    assert!(!logs.loading);
    logs.reset("x".into());
    assert!(logs.loading);
    assert_eq!(logs.container_id.as_deref(), Some("x"));
}

#[test]
fn timestamps_are_part_of_what_is_searched_only_when_shown() {
    let mut logs = LogView::new(true, 10);
    logs.append(entries(&["2026-03-22T12:00:00Z hello\n"]));
    logs.set_filter_query("2026".into());
    assert_eq!(shown(&logs), vec!["2026-03-22T12:00:00Z hello"]);
    logs.show_timestamps = false;
    assert_eq!(logs.filtered_len(), 0);
}

#[test]
fn shifted_indices_stay_between_the_limits() {
    assert_eq!(shifted(3, 2, 9), 5);
    assert_eq!(shifted(3, -2, 9), 1);
    assert_eq!(shifted(3, -4, 9), 0);
    assert_eq!(shifted(3, 7, 9), 9);
    assert_eq!(shifted(usize::MAX, isize::MAX, 9), 9);
    assert_eq!(shifted(5, isize::MIN, 9), 0);
}
