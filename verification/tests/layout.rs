use dui::layout::{
    block_inner, centered_rect, column_rules, contains, detail_rules, detail_tab_regions,
    grab_offset, screen_rules, scroll_offset_for_selection, sections_of, split_right_gutter,
    split_screen, title_width, trim_bottom, trim_top, AppLayout, Rect, ScrollMetrics, Sections,
    SizeRule,
};
use dui::tab::DetailTab;

#[test]
fn areas_are_cut() {
    let area = Rect::new(2, 3, 10, 8);
    assert_eq!(block_inner(area), Rect::new(3, 4, 8, 6));
    assert_eq!(block_inner(Rect::new(0, 0, 1, 1)), Rect::new(1, 1, 0, 0));
    assert_eq!(
        split_right_gutter(area, 1),
        (Rect::new(2, 3, 9, 8), Rect::new(11, 3, 1, 8))
    );
    assert_eq!(
        split_right_gutter(Rect::new(2, 3, 0, 8), 1),
        (Rect::new(2, 3, 0, 8), Rect::new(2, 3, 0, 8))
    );
    assert_eq!(trim_top(area, 2), Rect::new(2, 5, 10, 6));
    assert_eq!(trim_top(area, 20), Rect::new(2, 11, 10, 0));
    assert_eq!(trim_bottom(area, 2), Rect::new(2, 3, 10, 6));
}

#[test]
fn points_are_in_areas() {
    let area = Rect::new(2, 3, 10, 8);
    assert!(contains(area, 2, 3));
    assert!(contains(area, 11, 10));
    assert!(!contains(area, 12, 10));
    assert!(!contains(area, 11, 11));
    assert!(!contains(area, 1, 3));
    assert!(!contains(Rect::new(65530, 0, 100, 1), 65535, 0));
}

#[test]
fn dialog_is_centered() {
    assert_eq!(centered_rect(58, 5, Rect::new(0, 0, 100, 41)), Rect::new(21, 18, 58, 5));
    assert_eq!(centered_rect(58, 5, Rect::new(0, 0, 10, 3)), Rect::new(2, 0, 5, 5));
    assert_eq!(centered_rect(60, 1, Rect::new(0, 0, 2000, 1)).width, 655);
}

#[test]
fn rules_of_the_screen() {
    assert_eq!(
        screen_rules(),
        vec![SizeRule::Min(10), SizeRule::Length(2), SizeRule::Length(1)]
    );
    assert_eq!(column_rules(), vec![SizeRule::Percentage(44), SizeRule::Percentage(56)]);
    assert_eq!(detail_rules(), vec![SizeRule::Length(3), SizeRule::Min(8)]);
}

#[test]
fn screen_is_split_by_the_rules() {
    let sections = split_screen(Rect::new(0, 0, 100, 40));
    assert_eq!(sections.containers, Rect::new(0, 0, 44, 37));
    assert_eq!(sections.tabs, Rect::new(44, 0, 56, 3));
    assert_eq!(sections.detail, Rect::new(44, 3, 56, 34));
    assert_eq!(sections.status, Rect::new(0, 37, 100, 2));
    assert_eq!(sections.footer, Rect::new(0, 39, 100, 1));
}

#[test]
fn roomy_screens_are_split_exactly() {
    for width in [0, 1, 2, 7, 80, 81, 83, 119, 120, 200, 333, 999, 65535] {
        for height in [14, 15, 24, 25, 40, 77, 1000, 65535] {
            for (x, y) in [(0, 0), (5, 9), (400, 300)] {
                let left = (u32::from(width.min(65535 - x)) * 44 + 50) / 100;
                let columns = width.min(65535 - x);
                let rows = height.min(65535 - y);
                let left = left as u16;
                let sections = split_screen(Rect::new(x, y, width, height));
                assert_eq!(sections.containers, Rect::new(x, y, left, rows - 3));
                assert_eq!(sections.tabs, Rect::new(x + left, y, columns - left, 3));
                assert_eq!(
                    sections.detail,
                    Rect::new(x + left, y + 3, columns - left, rows - 6)
                );
                assert_eq!(sections.status, Rect::new(x, y + rows - 3, width, 2));
                assert_eq!(sections.footer, Rect::new(x, y + rows - 1, width, 1));
            }
        }
    }
}

#[test]
fn low_screens_keep_their_main_part() {
    let heights = [
        (0, 0, 0),
        (1, 0, 1),
        (2, 0, 2),
        (3, 0, 3),
        (4, 0, 4),
        (5, 0, 5),
        (6, 0, 6),
        (7, 0, 7),
        (8, 0, 8),
        (9, 1, 8),
        (10, 2, 8),
        (11, 2, 8),
        (12, 2, 8),
        (13, 2, 8),
    ];
    for (height, tabs, contents) in heights {
        for (width, left) in [(0, 0), (1, 0), (2, 1), (3, 1), (40, 18), (121, 53)] {
            let s = split_screen(Rect::new(2, 3, width, height));
            let main = height.min(10);
            assert_eq!(s.containers, Rect::new(2, 3, left, main));
            assert_eq!(s.tabs, Rect::new(2 + left, 3, width - left, tabs));
            assert_eq!(s.detail, Rect::new(2 + left, 3 + tabs, width - left, contents));
            assert_eq!(s.status, Rect::new(2, 3 + main, width, s.status.height));
            assert_eq!(s.footer.y, s.status.y + s.status.height);
            assert_eq!(s.status.height + s.footer.height, height - main);
            assert_eq!((s.footer.x, s.footer.width), (2, width));
            assert_eq!(height == 13, (s.status.height, s.footer.height) == (2, 1));
        }
    }
}

#[test]
fn every_point_of_a_screen_belongs_to_one_section() {
    for height in [0, 1, 7, 8, 9, 10, 11, 12, 13, 14, 20] {
        let screen = Rect::new(1, 2, 30, height);
        let s = split_screen(screen);
        for y in 0..25 {
            for x in 0..35 {
                let hits = [s.containers, s.tabs, s.detail, s.status, s.footer]
                    .iter()
                    .filter(|area| contains(**area, x, y))
                    .count();
                assert_eq!(hits, usize::from(contains(screen, x, y)));
            }
        }
    }
}

#[test]
fn sections_are_taken_from_the_parts() {
    let screen = vec![Rect::new(0, 1, 4, 3), Rect::new(0, 4, 4, 2), Rect::new(0, 6, 4, 1)];
    let columns = vec![Rect::new(0, 1, 2, 3), Rect::new(2, 1, 2, 3)];
    let detail = vec![Rect::new(2, 1, 2, 1), Rect::new(2, 2, 2, 2)];
    let sections = sections_of(&screen, &columns, &detail);
    assert_eq!(sections.containers, columns[0]);
    assert_eq!((sections.tabs, sections.detail), (detail[0], detail[1]));
    assert_eq!((sections.status, sections.footer), (screen[1], screen[2]));
}

#[test]
fn layout_leaves_room_for_borders_and_bars() {
    let layout = AppLayout::new(Sections {
        containers: Rect::new(0, 3, 44, 34),
        tabs: Rect::new(44, 3, 56, 3),
        detail: Rect::new(44, 6, 56, 31),
        status: Rect::new(0, 37, 100, 2),
        footer: Rect::new(0, 39, 100, 1),
    });
    assert_eq!(layout.container_view, Rect::new(1, 4, 41, 32));
    assert_eq!(layout.container_scrollbar, Rect::new(42, 5, 1, 31));
    assert_eq!(layout.detail_tabs_inner, Rect::new(45, 4, 54, 1));
    assert_eq!(layout.detail_view, Rect::new(45, 7, 53, 29));
    assert_eq!(layout.detail_scrollbar, Rect::new(98, 7, 1, 29));
    assert_eq!(layout.logs_view, Rect::new(45, 7, 53, 28));
    assert_eq!(layout.logs_scrollbar, Rect::new(98, 7, 1, 28));
    assert_eq!(layout.logs_outer, layout.detail_outer);
}

#[test]
fn window_follows_the_selection() {
    assert_eq!(scroll_offset_for_selection(5, 3, 4), 3);
    assert_eq!(scroll_offset_for_selection(5, 8, 4), 5);
    assert_eq!(scroll_offset_for_selection(5, 9, 4), 6);
    assert_eq!(scroll_offset_for_selection(5, 9, 0), 9);
    assert_eq!(scroll_offset_for_selection(usize::MAX, usize::MAX, usize::MAX), usize::MAX);
}

#[test]
fn thumb_takes_its_share() {
    let track = Rect::new(9, 2, 1, 10);
    let metrics = ScrollMetrics::new(40, 10, 15, track);
    assert_eq!(metrics.max_position(), 30);
    assert_eq!(metrics.thumb_bounds(3, 4), (6, 3));
    assert_eq!(metrics.travel(3), 7);
    assert_eq!(metrics.thumb_bounds(0, 0), (2, 1));
    assert_eq!(metrics.thumb_bounds(99, 7), (2, 10));
    assert_eq!(metrics.relative_top(6, 3), 4);
    assert_eq!(metrics.relative_top(99, 3), 7);
    assert_eq!(metrics.position_for_thumb_top(3, 17), 17);
    assert_eq!(metrics.position_for_thumb_top(10, 17), 0);
    assert_eq!(metrics.dragged_to(3, 7, 1), 6);
    assert_eq!(metrics.dragged_to(3, 0, 1), 2);
    assert_eq!(metrics.dragged_to(3, 60, 1), 9);
}

#[test]
fn thumb_of_short_contents_fills_the_bar() {
    let track = Rect::new(9, 2, 1, 10);
    assert_eq!(ScrollMetrics::new(4, 10, 0, track).thumb_bounds(3, 4), (2, 10));
    assert_eq!(ScrollMetrics::new(0, 10, 0, track).thumb_bounds(3, 4), (2, 1));
    let flat = Rect::new(9, 2, 1, 0);
    assert_eq!(ScrollMetrics::new(40, 10, 0, flat).thumb_bounds(3, 4), (2, 0));
    assert_eq!(ScrollMetrics::new(4, 0, 0, track).viewport_length, 1);
    assert_eq!(ScrollMetrics::new(4, 10, 0, track).position_for_thumb_top(3, 5), 0);
}

#[test]
fn thumb_is_held_where_the_mouse_is_or_in_the_middle() {
    assert_eq!(grab_offset(4, 5, 6), 2);
    assert_eq!(grab_offset(4, 5, 9), 2);
    assert_eq!(grab_offset(4, 5, 3), 2);
    assert_eq!(grab_offset(4, 5, 4), 0);
    assert_eq!(grab_offset(4, 5, 8), 4);
}

#[test]
fn titles_stand_side_by_side() {
    assert_eq!(
        detail_tab_regions(Rect::new(5, 0, 100, 1)),
        vec![
            (DetailTab::Logs, 5, 13),
            (DetailTab::Overview, 14, 26),
            (DetailTab::Env, 27, 34),
            (DetailTab::Ports, 35, 44),
            (DetailTab::Mounts, 45, 55),
            (DetailTab::Health, 56, 66),
        ]
    );
    assert_eq!(
        detail_tab_regions(Rect::new(5, 0, 15, 1)),
        vec![(DetailTab::Logs, 5, 13), (DetailTab::Overview, 14, 20)]
    );
    assert_eq!(detail_tab_regions(Rect::new(5, 0, 9, 1)), vec![(DetailTab::Logs, 5, 13)]);
    assert_eq!(detail_tab_regions(Rect::new(5, 0, 0, 1)), vec![]);
    assert_eq!(title_width(DetailTab::Overview), 12);
}
