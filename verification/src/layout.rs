//! Where things stand on the screen: areas, scrollbars and the tabs' titles.

use ratatui::layout::{Constraint, Direction, Layout};

use crate::tab::{all_tabs, tab_title, DetailTab};
use vstd::prelude::*;

verus! {

/// An area of the screen.
#[derive(Clone, Copy, Debug, PartialEq, Eq, Structural)]
pub struct Rect {
    pub x: u16,
    pub y: u16,
    pub width: u16,
    pub height: u16,
}

impl Rect {
    /// The area with its upper left corner at `x`, `y`.
    pub fn new(x: u16, y: u16, width: u16, height: u16) -> (area: Self)
        ensures
            area == (Rect { x, y, width, height }),
    {
        Rect { x, y, width, height }
    }
}

/// A sum that stays within 16 bits.
pub open spec fn capped_sum(a: u16, b: u16) -> u16 {
    if a + b > 65535 {
        65535
    } else {
        (a + b) as u16
    }
}

/// A difference that stays at zero or above.
pub open spec fn floored_difference(a: u16, b: u16) -> u16 {
    if a < b {
        0
    } else {
        (a - b) as u16
    }
}

/// The smaller of two numbers.
pub open spec fn smaller(a: u16, b: u16) -> u16 {
    if a <= b {
        a
    } else {
        b
    }
}

/// The inside of an area that has a border.
pub open spec fn inside(area: Rect) -> Rect {
    Rect {
        x: capped_sum(area.x, 1),
        y: capped_sum(area.y, 1),
        width: floored_difference(area.width, 2),
        height: floored_difference(area.height, 2),
    }
}

/// An area without the gutter at its right side.
pub open spec fn left_of_gutter(area: Rect, gutter: u16) -> Rect {
    Rect { width: floored_difference(area.width, smaller(gutter, area.width)), ..area }
}

/// The gutter at the right side of an area.
pub open spec fn right_gutter(area: Rect, gutter: u16) -> Rect {
    Rect {
        x: capped_sum(area.x, left_of_gutter(area, gutter).width),
        width: smaller(gutter, area.width),
        ..area
    }
}

/// An area without its upper rows.
pub open spec fn without_top(area: Rect, rows: u16) -> Rect {
    Rect {
        y: capped_sum(area.y, smaller(rows, area.height)),
        height: floored_difference(area.height, rows),
        ..area
    }
}

/// An area without its lower rows.
pub open spec fn without_bottom(area: Rect, rows: u16) -> Rect {
    Rect { height: floored_difference(area.height, rows), ..area }
}

/// A point is in an area.
pub open spec fn covers(area: Rect, x: u16, y: u16) -> bool {
    &&& area.x <= x < capped_sum(area.x, area.width)
    &&& area.y <= y < capped_sum(area.y, area.height)
}

/// The inside of an area that has a border.
pub fn block_inner(area: Rect) -> (inner: Rect)
    ensures
        inner == inside(area),
{
    Rect {
        x: area.x.saturating_add(1),
        y: area.y.saturating_add(1),
        width: area.width.saturating_sub(2),
        height: area.height.saturating_sub(2),
    }
}

/// An area in two: what is left of a gutter at its right side, and the gutter.
pub fn split_right_gutter(area: Rect, gutter_width: u16) -> (parts: (Rect, Rect))
    ensures
        parts == (left_of_gutter(area, gutter_width), right_gutter(area, gutter_width)),
{
    let gutter_width: u16 = if gutter_width <= area.width { gutter_width } else { area.width };
    let view_width: u16 = area.width.saturating_sub(gutter_width);
    (
        Rect { x: area.x, y: area.y, width: view_width, height: area.height },
        Rect {
            x: area.x.saturating_add(view_width),
            y: area.y,
            width: gutter_width,
            height: area.height,
        },
    )
}

/// An area without its upper rows.
pub fn trim_top(area: Rect, rows: u16) -> (rest: Rect)
    ensures
        rest == without_top(area, rows),
{
    let taken: u16 = if rows <= area.height { rows } else { area.height };
    Rect {
        x: area.x,
        y: area.y.saturating_add(taken),
        width: area.width,
        height: area.height.saturating_sub(rows),
    }
}

/// An area without its lower rows.
pub fn trim_bottom(area: Rect, rows: u16) -> (rest: Rect)
    ensures
        rest == without_bottom(area, rows),
{
    Rect { x: area.x, y: area.y, width: area.width, height: area.height.saturating_sub(rows) }
}

/// Whether a point is in an area.
pub fn contains(area: Rect, x: u16, y: u16) -> (b: bool)
    ensures
        b == covers(area, x, y),
{
    x >= area.x && y >= area.y && x < area.x.saturating_add(area.width) && y
        < area.y.saturating_add(area.height)
}

/// The share of a width, in percent.
pub open spec fn percent_of(width: u16, percent: u16) -> u16 {
    if width * percent > 65535 {
        655
    } else {
        ((width * percent) / 100) as u16
    }
}

/// An area of some rows and a share of the width, in the middle of another area.
pub fn centered_rect(percent_x: u16, height: u16, area: Rect) -> (centered: Rect)
    requires
        area.x + floored_difference(area.width, percent_of(area.width, percent_x)) / 2 <= 65535,
        area.y + floored_difference(area.height, height) / 2 <= 65535,
    ensures
        centered.width == percent_of(area.width, percent_x),
        centered.height == height,
        centered.x == area.x + floored_difference(area.width, percent_of(area.width, percent_x))
            / 2,
        centered.y == area.y + floored_difference(area.height, height) / 2,
{
    proof {
        assert(0 <= area.width * percent_x <= 65535 * 65535) by (nonlinear_arith)
            requires
                0 <= area.width <= 65535,
                0 <= percent_x <= 65535,
        ;
    }
    let product: u32 = area.width as u32 * percent_x as u32;
    let width: u16 = if product > 65535 { 655 } else { (product / 100) as u16 };
    Rect {
        x: area.x + area.width.saturating_sub(width) / 2,
        y: area.y + area.height.saturating_sub(height) / 2,
        width,
        height,
    }
}

// ---------------------------------------------------------------------------------------------
// The sections of the screen
// ---------------------------------------------------------------------------------------------

/// The direction in which an area is split.
#[derive(Clone, Copy, Debug, PartialEq, Eq, Structural)]
pub enum Axis {
    Horizontal,
    Vertical,
}

/// How large a part of a split is to be.
#[derive(Clone, Copy, Debug, PartialEq, Eq, Structural)]
pub enum SizeRule {
    Length(u16),
    Min(u16),
    Percentage(u16),
}

/// Across the direction of a split, a part is as large as the whole.
pub open spec fn spans(axis: Axis, part: Rect, area: Rect) -> bool {
    match axis {
        Axis::Horizontal => part.y == area.y && part.height == area.height,
        Axis::Vertical => part.x == area.x && part.width == area.width,
    }
}

/// An area lies in another one.
pub open spec fn lies_in(part: Rect, whole: Rect) -> bool {
    &&& whole.x <= part.x
    &&& part.x + part.width <= whole.x + whole.width
    &&& whole.y <= part.y
    &&& part.y + part.height <= whole.y + whole.height
}

/// The first column or row of an area, in the direction of a split.
pub open spec fn start_of(axis: Axis, area: Rect) -> int {
    match axis {
        Axis::Horizontal => area.x as int,
        Axis::Vertical => area.y as int,
    }
}

/// The columns or rows of an area, in the direction of a split.
pub open spec fn size_of_part(axis: Axis, area: Rect) -> int {
    match axis {
        Axis::Horizontal => area.width as int,
        Axis::Vertical => area.height as int,
    }
}

/// The columns or rows that can be divided: those whose numbers fit in 16 bits.
pub open spec fn room(axis: Axis, area: Rect) -> int {
    match axis {
        Axis::Horizontal => capped_sum(area.x, area.width) - area.x,
        Axis::Vertical => capped_sum(area.y, area.height) - area.y,
    }
}

/// The size that a rule claims at least.
pub open spec fn claim(rule: SizeRule) -> int {
    match rule {
        SizeRule::Length(n) => n as int,
        SizeRule::Min(n) => n as int,
        SizeRule::Percentage(_) => 0,
    }
}

/// The sizes that some rules claim together.
pub open spec fn claims(rules: Seq<SizeRule>) -> int
    decreases rules.len(),
{
    if rules.len() == 0 {
        0
    } else {
        claims(rules.drop_last()) + claim(rules.last())
    }
}

/// One part is to grow, and all others are to have a length.
pub open spec fn grows_alone(rules: Seq<SizeRule>, grown: int) -> bool {
    &&& 0 <= grown < rules.len()
    &&& rules[grown] is Min
    &&& forall|i: int|
        0 <= i < rules.len() && i != grown ==> #[trigger] rules[i] is Length
}

/// Two parts share the whole, by percentages that make up a hundred.
pub open spec fn shares_whole(rules: Seq<SizeRule>) -> bool {
    &&& rules.len() == 2
    &&& rules[0] matches SizeRule::Percentage(a)
    &&& rules[1] matches SizeRule::Percentage(b)
    &&& a + b == 100
}

/// A size, but no more than a limit.
pub open spec fn at_most(size: int, limit: int) -> int {
    if size <= limit {
        size
    } else {
        limit
    }
}

/// `ratatui::layout::Layout::split` divides an area by a few rules: one part for each rule, each
/// of them within the area and as large as the area across the direction of the split. The first
/// part begins where the area begins, and every other part where the one before it ends, for the
/// solver weighs that above every rule. Where one part is to grow, all others have a length and
/// there is room for all of them, the lengths are met and the one part takes what is left. Where
/// there is too little room, the least size of the one part goes before the lengths, as long as
/// it fits in 15 bits, and no room is left over; how the lengths share what remains is left to
/// the solver, and of that nothing is said. Two parts with percentages that make up a hundred meet
/// at the column or row that is nearest to the first percentage. Of other rules nothing more is
/// said.
#[verifier::external_body]
fn split_area(axis: Axis, rules: &Vec<SizeRule>, area: Rect) -> (parts: Vec<Rect>)
    requires
        1 <= rules@.len() <= 4,
    ensures
        parts@.len() == rules@.len(),
        forall|i: int|
            0 <= i < parts@.len() ==> spans(axis, #[trigger] parts@[i], area) && lies_in(
                parts@[i],
                area,
            ),
        start_of(axis, parts@[0]) == start_of(axis, area),
        forall|i: int, j: int|
            0 <= i && j == i + 1 && j < parts@.len() ==> start_of(axis, #[trigger] parts@[j])
                == start_of(axis, #[trigger] parts@[i]) + size_of_part(axis, parts@[i]),
        forall|grown: int, i: int|
            #![trigger rules@[grown], parts@[i]]
            grows_alone(rules@, grown) && claims(rules@) <= room(axis, area) && 0 <= i
                < parts@.len() ==> size_of_part(axis, parts@[i]) == (if i == grown {
                room(axis, area) - claims(rules@) + claim(rules@[grown])
            } else {
                claim(rules@[i])
            }),
        forall|grown: int|
            #![trigger rules@[grown]]
            grows_alone(rules@, grown) && claims(rules@) > room(axis, area) && claim(
                rules@[grown],
            ) <= 32767 ==> size_of_part(axis, parts@[grown]) == at_most(
                claim(rules@[grown]),
                room(axis, area),
            ) && start_of(axis, parts@.last()) + size_of_part(axis, parts@.last()) == start_of(
                axis,
                area,
            ) + room(axis, area),
        shares_whole(rules@) ==> size_of_part(axis, parts@[0]) == (room(axis, area)
            * rules@[0]->Percentage_0 + 50) / 100 && size_of_part(axis, parts@[1]) == room(
            axis,
            area,
        ) - size_of_part(axis, parts@[0]),
{
    let constraints = rules.iter().map(|rule| match rule {
        SizeRule::Length(n) => Constraint::Length(*n),
        SizeRule::Min(n) => Constraint::Min(*n),
        SizeRule::Percentage(n) => Constraint::Percentage(*n),
    });
    let direction = match axis {
        Axis::Horizontal => Direction::Horizontal,
        Axis::Vertical => Direction::Vertical,
    };
    let Rect { x, y, width, height } = area;
    let root = ratatui::layout::Rect { x, y, width, height };
    let parts = Layout::default().direction(direction).constraints(constraints).split(root);
    parts.iter().map(|p| Rect { x: p.x, y: p.y, width: p.width, height: p.height }).collect()
}

/// The rows of the screen: the main part, a status line and a foot.
pub fn screen_rules() -> (rules: Vec<SizeRule>)
    ensures
        rules@ == seq![SizeRule::Min(10), SizeRule::Length(2), SizeRule::Length(1)],
{
    vec![SizeRule::Min(10), SizeRule::Length(2), SizeRule::Length(1)]
}

/// The columns of the main part: the container list and the detail pane.
pub fn column_rules() -> (rules: Vec<SizeRule>)
    ensures
        rules@ == seq![SizeRule::Percentage(44), SizeRule::Percentage(56)],
{
    vec![SizeRule::Percentage(44), SizeRule::Percentage(56)]
}

/// The rows of the detail pane: the tabs and the contents.
pub fn detail_rules() -> (rules: Vec<SizeRule>)
    ensures
        rules@ == seq![SizeRule::Length(3), SizeRule::Min(8)],
{
    vec![SizeRule::Length(3), SizeRule::Min(8)]
}

/// The sections of the screen, with their borders: the container list, the tabs and the contents
/// of the detail pane, the status line and the foot.
#[derive(Clone, Copy, Debug, PartialEq, Eq, Structural)]
pub struct Sections {
    pub containers: Rect,
    pub tabs: Rect,
    pub detail: Rect,
    pub status: Rect,
    pub footer: Rect,
}

/// Sections lie on a screen as they should: the list at the upper left, the tabs at its right,
/// the contents below the tabs and no lower than the list, then the status line over the whole
/// width, then the foot.
pub open spec fn on_screen(sections: Sections, viewport: Rect) -> bool {
    let Sections { containers, tabs, detail, status, footer } = sections;
    &&& lies_in(containers, viewport) && lies_in(tabs, viewport) && lies_in(detail, viewport)
    &&& lies_in(status, viewport) && lies_in(footer, viewport)
    &&& containers.x == viewport.x && containers.y == viewport.y
    &&& tabs.x == containers.x + containers.width && tabs.y == containers.y
    &&& detail.x == tabs.x && detail.width == tabs.width
    &&& detail.y == tabs.y + tabs.height
    &&& detail.y + detail.height <= containers.y + containers.height
    &&& status.x == viewport.x && status.width == viewport.width
    &&& status.y == containers.y + containers.height
    &&& footer.x == viewport.x && footer.width == viewport.width
    &&& footer.y == status.y + status.height
}

/// The rows of the main part of a screen, which holds the list and the detail pane: all rows but
/// three, or ten where the screen is too low for that, or all that there are.
pub open spec fn main_rows(viewport: Rect) -> int {
    let rows = room(Axis::Vertical, viewport);
    if rows >= 13 {
        rows - 3
    } else {
        at_most(rows, 10)
    }
}

/// The rows of the contents of the detail pane: all rows of the main part but three, or eight where
/// it is too low for that, or all that there are.
pub open spec fn contents_rows(viewport: Rect) -> int {
    let rows = main_rows(viewport);
    if rows >= 11 {
        rows - 3
    } else {
        at_most(rows, 8)
    }
}

/// The columns of the container list: 44 percent.
pub open spec fn list_columns(viewport: Rect) -> int {
    (room(Axis::Horizontal, viewport) * 44 + 50) / 100
}

/// The list, the tabs and the contents are as large as a screen gives them.
pub open spec fn main_is_sized(sections: Sections, viewport: Rect) -> bool {
    let Sections { containers, tabs, detail, status, footer } = sections;
    &&& containers.width == list_columns(viewport)
    &&& containers.height == main_rows(viewport)
    &&& tabs.width == room(Axis::Horizontal, viewport) - list_columns(viewport)
    &&& tabs.height == main_rows(viewport) - contents_rows(viewport)
    &&& detail.height == contents_rows(viewport)
}

/// The status line and the foot take the rows below the main part: two rows and one. Where there
/// are fewer than three rows, they share what there is.
pub open spec fn foot_is_sized(sections: Sections, viewport: Rect) -> bool {
    let rows = room(Axis::Vertical, viewport) - main_rows(viewport);
    &&& sections.status.height + sections.footer.height == rows
    &&& rows >= 3 ==> sections.status.height == 2
}

/// The sections of a screen are where they should be and as large as they should be.
pub open spec fn fills_screen(sections: Sections, viewport: Rect) -> bool {
    &&& on_screen(sections, viewport)
    &&& main_is_sized(sections, viewport)
    &&& foot_is_sized(sections, viewport)
}

/// The sections of a screen, from the parts of its rows, of the main part and of the right column.
pub fn sections_of(screen: &Vec<Rect>, columns: &Vec<Rect>, detail: &Vec<Rect>) -> (sections:
    Sections)
    requires
        screen@.len() == 3,
        columns@.len() == 2,
        detail@.len() == 2,
    ensures
        sections == (Sections {
            containers: columns@[0],
            tabs: detail@[0],
            detail: detail@[1],
            status: screen@[1],
            footer: screen@[2],
        }),
{
    Sections {
        containers: columns[0],
        tabs: detail[0],
        detail: detail[1],
        status: screen[1],
        footer: screen[2],
    }
}

/// Splits the screen into its sections: the main part of the screen rows into columns, and the
/// right column into tabs and contents.
pub fn split_screen(viewport: Rect) -> (sections: Sections)
    ensures
        fills_screen(sections, viewport),
{
    let rows = screen_rules();
    let halves = column_rules();
    let pane = detail_rules();
    let screen = split_area(Axis::Vertical, &rows, viewport);
    let columns = split_area(Axis::Horizontal, &halves, screen[0]);
    let detail = split_area(Axis::Vertical, &pane, columns[1]);
    proof {
        reveal_with_fuel(claims, 4);
        assert(claims(rows@) == 13) by {
            assert(rows@.drop_last().drop_last().drop_last() =~= Seq::empty());
        }
        assert(claims(pane@) == 11) by {
            assert(pane@.drop_last().drop_last() =~= Seq::empty());
        }
        assert(grows_alone(rows@, 0) && rows@[0] is Min);
        assert(grows_alone(pane@, 1) && pane@[1] is Min);
        assert(shares_whole(halves@));
    }
    sections_of(&screen, &columns, &detail)
}

/// Every row and every column of a screen belongs to a section, and no two sections share a point.
pub proof fn sections_share_no_point(sections: Sections, viewport: Rect, x: u16, y: u16)
    requires
        fills_screen(sections, viewport),
    ensures
        ({
            let hits = |area: Rect| if covers(area, x, y) {
                1int
            } else {
                0int
            };
            hits(sections.containers) + hits(sections.tabs) + hits(sections.detail) + hits(
                sections.status,
            ) + hits(sections.footer) == hits(viewport)
        }),
{
}

/// A screen has one way to be split into sections, unless it has eleven or twelve rows: there the
/// status line and the foot share one row or two.
pub proof fn sections_are_determined(a: Sections, b: Sections, viewport: Rect)
    requires
        fills_screen(a, viewport),
        fills_screen(b, viewport),
        room(Axis::Vertical, viewport) <= 10 || room(Axis::Vertical, viewport) >= 13,
    ensures
        a == b,
{
}

/// The areas of the screen that react to the mouse.
#[derive(Clone, Copy, Debug, PartialEq, Eq, Structural)]
pub struct AppLayout {
    pub container_outer: Rect,
    pub container_view: Rect,
    pub container_scrollbar: Rect,
    pub detail_outer: Rect,
    pub detail_view: Rect,
    pub detail_scrollbar: Rect,
    pub detail_tabs_inner: Rect,
    pub logs_outer: Rect,
    pub logs_view: Rect,
    pub logs_scrollbar: Rect,
}

/// The areas of some sections: each has a border and a scrollbar of one column, the container
/// list has a heading, and the logs have a line of notes below them.
pub open spec fn layout_of(sections: Sections) -> AppLayout {
    let containers = inside(sections.containers);
    let detail = inside(sections.detail);
    let logs = without_bottom(detail, 1);
    AppLayout {
        container_outer: sections.containers,
        container_view: left_of_gutter(containers, 1),
        container_scrollbar: without_top(right_gutter(containers, 1), 1),
        detail_outer: sections.detail,
        detail_view: left_of_gutter(detail, 1),
        detail_scrollbar: right_gutter(detail, 1),
        detail_tabs_inner: inside(sections.tabs),
        logs_outer: sections.detail,
        logs_view: left_of_gutter(logs, 1),
        logs_scrollbar: right_gutter(logs, 1),
    }
}

impl AppLayout {
    /// The areas of some sections.
    pub fn new(sections: Sections) -> (layout: Self)
        ensures
            layout == layout_of(sections),
    {
        let container_inner = block_inner(sections.containers);
        let detail_inner = block_inner(sections.detail);
        let (container_view, container_scrollbar) = split_right_gutter(container_inner, 1);
        let (detail_view, detail_scrollbar) = split_right_gutter(detail_inner, 1);
        let logs_region = trim_bottom(detail_inner, 1);
        let (logs_view, logs_scrollbar) = split_right_gutter(logs_region, 1);
        AppLayout {
            container_outer: sections.containers,
            container_view,
            container_scrollbar: trim_top(container_scrollbar, 1),
            detail_outer: sections.detail,
            detail_view,
            detail_scrollbar,
            detail_tabs_inner: block_inner(sections.tabs),
            logs_outer: sections.detail,
            logs_view,
            logs_scrollbar,
        }
    }
}

/// A view and its scrollbar lie side by side: no point is in both.
pub proof fn view_and_gutter_are_apart(area: Rect, gutter: u16, x: u16, y: u16)
    ensures
        !(covers(left_of_gutter(area, gutter), x, y) && covers(right_gutter(area, gutter), x, y)),
{
}

// ---------------------------------------------------------------------------------------------
// Scrolling
// ---------------------------------------------------------------------------------------------

/// The first visible row after a window of some rows has been moved as little as can be so that
/// the selected row is in it.
pub open spec fn window_for(current: int, selected: int, height: int) -> int {
    let rows = if height < 1 {
        1
    } else {
        height
    };
    if selected < current {
        selected
    } else if selected >= current + rows {
        selected + 1 - rows
    } else {
        current
    }
}

/// The first visible row after a window has been moved so that the selected row is in it.
pub fn scroll_offset_for_selection(current: usize, selected: usize, height: usize) -> (offset:
    usize)
    ensures
        offset == window_for(current as int, selected as int, height as int),
{
    let rows: usize = if height < 1 { 1 } else { height };
    if selected < current {
        selected
    } else if selected - current >= rows {
        selected - (rows - 1)
    } else {
        current
    }
}

/// The selected row is in the window, and a window that held it already has not moved.
pub proof fn selection_is_in_the_window(current: int, selected: int, height: int)
    requires
        0 <= current,
        0 <= selected,
    ensures
        0 <= window_for(current, selected, height) <= selected,
        selected < window_for(current, selected, height) + (if height < 1 {
            1
        } else {
            height
        }),
        window_for(window_for(current, selected, height), selected, height) == window_for(
            current,
            selected,
            height,
        ),
        current <= selected < current + height ==> window_for(current, selected, height) == current,
{
}

/// What a scrollbar stands for: how long the contents are, how much of them is visible, from
/// where, and where the bar is.
#[derive(Clone, Copy, Debug, PartialEq, Eq, Structural)]
pub struct ScrollMetrics {
    pub content_length: usize,
    pub viewport_length: usize,
    pub position: usize,
    pub track: Rect,
}

/// The length of the thumb, given what the visible share of the bar comes to in whole rows.
pub open spec fn thumb_length_of(metrics: ScrollMetrics, share: u16) -> u16 {
    let height = metrics.track.height;
    if height == 0 || metrics.content_length == 0 {
        smaller(height, 1)
    } else if metrics.content_length <= metrics.viewport_length {
        height
    } else if share < 1 {
        1
    } else {
        smaller(share, height)
    }
}

/// The last position of a scrolled window.
pub open spec fn last_position(metrics: ScrollMetrics) -> usize {
    if metrics.content_length < metrics.viewport_length {
        0
    } else {
        (metrics.content_length - metrics.viewport_length) as usize
    }
}

/// The first row of the thumb, given its length and how many rows the position comes to.
pub open spec fn thumb_top_of(metrics: ScrollMetrics, length: u16, rows: u16) -> u16 {
    if metrics.track.height == 0 || metrics.content_length == 0 || last_position(metrics) == 0
        || floored_difference(metrics.track.height, length) == 0 {
        metrics.track.y
    } else {
        capped_sum(metrics.track.y, rows)
    }
}

/// The position that a thumb stands for, given what its distance from the top comes to.
pub open spec fn position_of(metrics: ScrollMetrics, length: u16, position: usize) -> usize {
    if last_position(metrics) == 0 || floored_difference(metrics.track.height, length) == 0 {
        0
    } else {
        position
    }
}

/// The distance of a thumb from the top of its bar, at most as far as it can go.
pub open spec fn distance_of(metrics: ScrollMetrics, top: u16, length: u16) -> u16 {
    smaller(
        floored_difference(top, metrics.track.y),
        floored_difference(metrics.track.height, length),
    )
}

/// Where the mouse drags a thumb to: the row of the mouse less where it holds the thumb, kept on
/// the bar.
pub open spec fn dragged_top(metrics: ScrollMetrics, length: u16, y: u16, grab: u16) -> u16 {
    let lowest = capped_sum(metrics.track.y, floored_difference(metrics.track.height, length));
    let wanted = floored_difference(y, grab);
    if wanted < metrics.track.y {
        metrics.track.y
    } else {
        smaller(wanted, lowest)
    }
}

/// Where the mouse holds a thumb: at its row in the thumb, or in the middle where it is beside.
pub open spec fn grab_of(top: u16, length: u16, y: u16) -> u16 {
    if top <= y < capped_sum(top, length) {
        (y - top) as u16
    } else {
        (length / 2) as u16
    }
}

impl ScrollMetrics {
    /// What a scrollbar stands for. At least one row counts as visible.
    pub fn new(content_length: usize, viewport_length: usize, position: usize, track: Rect) -> (
        metrics: Self)
        ensures
            metrics == (ScrollMetrics {
                content_length,
                viewport_length: if viewport_length < 1 {
                    1
                } else {
                    viewport_length
                },
                position,
                track,
            }),
    {
        let viewport_length: usize = if viewport_length < 1 { 1 } else { viewport_length };
        ScrollMetrics { content_length, viewport_length, position, track }
    }

    /// The length of the thumb, given what the visible share of the bar comes to in whole rows.
    pub fn thumb_length(self, share: u16) -> (length: u16)
        ensures
            length == thumb_length_of(self, share),
    {
        let height: u16 = self.track.height;
        if height == 0 || self.content_length == 0 {
            if height <= 1 {
                height
            } else {
                1
            }
        } else if self.content_length <= self.viewport_length {
            height
        } else if share < 1 {
            1
        } else if share <= height {
            share
        } else {
            height
        }
    }

    /// The last position of the window.
    pub fn max_position(self) -> (position: usize)
        ensures
            position == last_position(self),
    {
        self.content_length.saturating_sub(self.viewport_length)
    }

    /// How many rows a thumb can travel.
    pub fn travel(self, thumb_length: u16) -> (rows: u16)
        ensures
            rows == floored_difference(self.track.height, thumb_length),
    {
        self.track.height.saturating_sub(thumb_length)
    }

    /// The first row and the length of the thumb, given what the visible share of the bar and the
    /// position come to in whole rows.
    pub fn thumb_bounds(self, share: u16, rows: u16) -> (bounds: (u16, u16))
        ensures
            bounds.1 == thumb_length_of(self, share),
            bounds.0 == thumb_top_of(self, bounds.1, rows),
    {
        let length: u16 = self.thumb_length(share);
        if self.track.height == 0 || self.content_length == 0 || self.max_position() == 0
            || self.travel(length) == 0 {
            (self.track.y, length)
        } else {
            (self.track.y.saturating_add(rows), length)
        }
    }

    /// The distance of a thumb from the top of its bar.
    pub fn relative_top(self, thumb_top: u16, thumb_length: u16) -> (distance: u16)
        ensures
            distance == distance_of(self, thumb_top, thumb_length),
    {
        let distance: u16 = thumb_top.saturating_sub(self.track.y);
        let travel: u16 = self.travel(thumb_length);
        if distance <= travel {
            distance
        } else {
            travel
        }
    }

    /// The position that a thumb stands for, given what its distance from the top comes to.
    pub fn position_for_thumb_top(self, thumb_length: u16, position: usize) -> (result: usize)
        ensures
            result == position_of(self, thumb_length, position),
    {
        if self.max_position() == 0 || self.travel(thumb_length) == 0 {
            0
        } else {
            position
        }
    }

    /// Where the mouse drags a thumb to.
    pub fn dragged_to(self, thumb_length: u16, y: u16, grab_offset: u16) -> (top: u16)
        ensures
            top == dragged_top(self, thumb_length, y, grab_offset),
    {
        let lowest: u16 = self.track.y.saturating_add(
            self.track.height.saturating_sub(thumb_length),
        );
        let wanted: u16 = y.saturating_sub(grab_offset);
        if wanted < self.track.y {
            self.track.y
        } else if wanted <= lowest {
            wanted
        } else {
            lowest
        }
    }
}

/// Where the mouse holds a thumb.
pub fn grab_offset(thumb_top: u16, thumb_length: u16, y: u16) -> (offset: u16)
    ensures
        offset == grab_of(thumb_top, thumb_length, y),
{
    if y >= thumb_top && y < thumb_top.saturating_add(thumb_length) {
        y - thumb_top
    } else {
        thumb_length / 2
    }
}

/// A thumb that has a bar is at least a row long and no longer than the bar.
pub proof fn thumb_fits_its_bar(metrics: ScrollMetrics, share: u16)
    requires
        metrics.track.height > 0,
    ensures
        1 <= thumb_length_of(metrics, share) <= metrics.track.height,
{
}

/// A dragged thumb stays on its bar.
pub proof fn dragged_thumb_stays_on_its_bar(
    metrics: ScrollMetrics,
    length: u16,
    y: u16,
    grab: u16,
)
    requires
        metrics.track.y + metrics.track.height <= 65535,
        length <= metrics.track.height,
    ensures
        metrics.track.y <= dragged_top(metrics, length, y, grab),
        dragged_top(metrics, length, y, grab) + length <= metrics.track.y + metrics.track.height,
{
}

// ---------------------------------------------------------------------------------------------
// The titles of the tabs
// ---------------------------------------------------------------------------------------------

/// The columns of a tab's title: the title with a space and a margin at each side.
pub open spec fn title_columns(tab: DetailTab) -> int {
    tab_title(tab).len() as int + 4
}

/// The tabs from one on, with the columns from which and up to which each stands, as far as they
/// begin left of `right`. A divider of one column stands between two tabs.
pub open spec fn regions_from(index: int, x: int, right: int) -> Seq<(DetailTab, int, int)>
    decreases 6 - index,
{
    if index < 0 || index >= 6 {
        Seq::empty()
    } else {
        let tab = all_tabs()[index];
        let end = x + title_columns(tab);
        let next = if index == 5 {
            end
        } else {
            end + 1
        };
        let shown = if end <= right {
            end
        } else {
            right
        };
        seq![(tab, x, shown)] + (if next >= right {
            Seq::empty()
        } else {
            regions_from(index + 1, next, right)
        })
    }
}

/// The tabs with the columns from which and up to which each stands.
pub open spec fn tab_regions(inner: Rect) -> Seq<(DetailTab, int, int)> {
    if inner.width == 0 {
        Seq::empty()
    } else {
        regions_from(0, inner.x as int, capped_sum(inner.x, inner.width) as int)
    }
}

/// A region in whole numbers.
pub open spec fn region_of(region: (DetailTab, u16, u16)) -> (DetailTab, int, int) {
    (region.0, region.1 as int, region.2 as int)
}

/// The columns of a tab's title.
pub fn title_width(tab: DetailTab) -> (columns: u16)
    ensures
        columns == title_columns(tab),
        columns <= 12,
{
    proof {
        reveal_strlit("Logs");
        reveal_strlit("Overview");
        reveal_strlit("Env");
        reveal_strlit("Ports");
        reveal_strlit("Mounts");
        reveal_strlit("Health");
    }
    match tab {
        DetailTab::Logs => 8,
        DetailTab::Overview => 12,
        DetailTab::Env => 7,
        DetailTab::Ports => 9,
        DetailTab::Mounts => 10,
        DetailTab::Health => 10,
    }
}

/// The tabs with the columns from which and up to which each stands.
pub fn detail_tab_regions(inner: Rect) -> (regions: Vec<(DetailTab, u16, u16)>)
    ensures
        regions@.map_values(|region: (DetailTab, u16, u16)| region_of(region)) == tab_regions(
            inner,
        ),
{
    let mut regions: Vec<(DetailTab, u16, u16)> = Vec::new();
    if inner.width == 0 {
        proof {
            assert(regions@.map_values(|region: (DetailTab, u16, u16)| region_of(region))
                =~= tab_regions(inner));
        }
        return regions;
    }
    let tabs = DetailTab::all();
    let right: u16 = inner.x.saturating_add(inner.width);
    let mut x: u16 = inner.x;
    let mut index: usize = 0;
    let ghost expected = tab_regions(inner);
    proof {
        assert(regions@.map_values(|region: (DetailTab, u16, u16)| region_of(region))
            + regions_from(0, x as int, right as int) =~= expected);
    }
    while index < 6 && (index == 0 || x < right)
        invariant
            index <= 6,
            tabs@ == all_tabs(),
            index < 6 && (index == 0 || x < right) ==> regions@.map_values(
                |region: (DetailTab, u16, u16)| region_of(region),
            ) + regions_from(index as int, x as int, right as int) == expected,
            !(index < 6 && (index == 0 || x < right)) ==> regions@.map_values(
                |region: (DetailTab, u16, u16)| region_of(region),
            ) == expected,
        decreases 6 - index,
    {
        let tab = tabs[index];
        let start: u16 = x;
        let end: u16 = x.saturating_add(title_width(tab));
        let ghost before = regions@.map_values(
            |region: (DetailTab, u16, u16)| region_of(region),
        );
        let shown: u16 = if end <= right { end } else { right };
        regions.push((tab, start, shown));
        x = if index == 5 { end } else { end.saturating_add(1) };
        proof {
            let now = regions@.map_values(|region: (DetailTab, u16, u16)| region_of(region));
            assert(now =~= before.push((tab, start as int, shown as int)));
            let exact_end = start + title_columns(tab);
            let exact_next = if index == 5 { exact_end } else { exact_end + 1 };
            assert(exact_next >= right <==> x >= right);
            assert(exact_next < right ==> exact_next == x);
            if index == 5 || exact_next >= right {
                assert(before + (seq![(tab, start as int, shown as int)] + Seq::<
                    (DetailTab, int, int),
                >::empty()) =~= now);
                assert(regions_from(6, exact_next as int, right as int) =~= Seq::<
                    (DetailTab, int, int),
                >::empty());
            } else {
                let tail = regions_from(index + 1, exact_next as int, right as int);
                assert(before + (seq![(tab, start as int, shown as int)] + tail) =~= now + tail);
            }
        }
        index += 1;
    }
    regions
}

/// The titles of the tabs stand side by side: each has a width, lies within the area, and ends
/// before the next one begins.
proof fn regions_from_are_apart(index: int, x: int, right: int)
    requires
        0 <= index < 6,
        x < right,
    ensures
        forall|i: int|
            0 <= i < regions_from(index, x, right).len() ==> x <= (#[trigger] regions_from(
                index,
                x,
                right,
            )[i]).1 < regions_from(index, x, right)[i].2 <= right,
        forall|i: int, j: int|
            0 <= i < j < regions_from(index, x, right).len() ==> (#[trigger] regions_from(
                index,
                x,
                right,
            )[i]).2 < (#[trigger] regions_from(index, x, right)[j]).1,
    decreases 6 - index,
{
    let tab = all_tabs()[index];
    let all = regions_from(index, x, right);
    let end = x + title_columns(tab);
    let next = if index == 5 {
        end
    } else {
        end + 1
    };
    if index < 5 && next < right {
        regions_from_are_apart(index + 1, next, right);
        let rest = regions_from(index + 1, next, right);
        assert forall|i: int| 0 <= i < all.len() implies x <= (#[trigger] all[i]).1 < all[i].2
            <= right by {
            if i > 0 {
                assert(all[i] == rest[i - 1]);
            }
        }
        assert forall|i: int, j: int| 0 <= i < j < all.len() implies (#[trigger] all[i]).2 < (
        #[trigger] all[j]).1 by {
            assert(all[j] == rest[j - 1]);
            if i > 0 {
                assert(all[i] == rest[i - 1]);
            }
        }
    } else {
        assert(regions_from(6, next, right) =~= Seq::empty());
        assert(all =~= seq![all[0]]);
    }
}

/// The titles of the tabs stand side by side: each has a width, lies within the area, and ends
/// before the next one begins.
pub proof fn titles_are_apart(inner: Rect)
    requires
        inner.x < 65535,
    ensures
        forall|i: int|
            0 <= i < tab_regions(inner).len() ==> inner.x <= (#[trigger] tab_regions(inner)[i]).1
                < tab_regions(inner)[i].2 <= capped_sum(inner.x, inner.width),
        forall|i: int, j: int|
            0 <= i < j < tab_regions(inner).len() ==> (#[trigger] tab_regions(inner)[i]).2 < (
            #[trigger] tab_regions(inner)[j]).1,
{
    if inner.width > 0 {
        regions_from_are_apart(0, inner.x as int, capped_sum(inner.x, inner.width) as int);
    }
}

} // verus!
