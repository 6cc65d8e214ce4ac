//! Screen geometry of the popups and lists.
use vstd::prelude::*;

verus! {

/// A rectangle of terminal cells.
#[derive(Debug, Clone, Copy, PartialEq, Eq, Structural)]
pub struct Rect {
    pub x: u16,
    pub y: u16,
    pub width: u16,
    pub height: u16,
}

/// Narrowest popup, in cells.
pub const POPUP_MIN_WIDTH: u16 = 10;

/// Lowest popup, in cells.
pub const POPUP_MIN_HEIGHT: u16 = 5;

/// The smaller of two numbers.
pub open spec fn min_nat(a: nat, b: nat) -> nat {
    if a <= b {
        a
    } else {
        b
    }
}

/// The larger of two numbers.
pub open spec fn max_nat(a: nat, b: nat) -> nat {
    if a >= b {
        a
    } else {
        b
    }
}

/// The popup width `centered_rect_abs` settles on.
pub open spec fn popup_width(width: nat, area: Rect) -> nat {
    min_nat(max_nat(width, POPUP_MIN_WIDTH as nat), area.width as nat)
}

/// The popup height `centered_rect_abs` settles on.
pub open spec fn popup_height(height: nat, area: Rect) -> nat {
    min_nat(max_nat(height, POPUP_MIN_HEIGHT as nat), area.height as nat)
}

/// The centered popup fits the coordinate range.
pub open spec fn centered_fits(width: nat, height: nat, area: Rect) -> bool {
    &&& area.x + (area.width - popup_width(width, area)) / 2 <= u16::MAX
    &&& area.y + (area.height - popup_height(height, area)) / 2 <= u16::MAX
}

/// A popup of the given size, kept between the minimum popup size and the
/// area, centered in the area (rounding toward the top left).
pub fn centered_rect_abs(width: u16, height: u16, area: Rect) -> (r: Rect)
    requires
        centered_fits(width as nat, height as nat, area),
    ensures
        r.width == popup_width(width as nat, area),
        r.height == popup_height(height as nat, area),
        r.x == area.x + (area.width - r.width) / 2,
        r.y == area.y + (area.height - r.height) / 2,
{
    let w = if width < POPUP_MIN_WIDTH {
        POPUP_MIN_WIDTH
    } else {
        width
    };
    let w = if w > area.width {
        area.width
    } else {
        w
    };
    let h = if height < POPUP_MIN_HEIGHT {
        POPUP_MIN_HEIGHT
    } else {
        height
    };
    let h = if h > area.height {
        area.height
    } else {
        h
    };
    let x = area.x + (area.width - w) / 2;
    let y = area.y + (area.height - h) / 2;
    Rect { x, y, width: w, height: h }
}

/// `a - b`, or 0 where `b` is larger.
pub open spec fn sat_sub(a: nat, b: nat) -> nat {
    if a >= b {
        (a - b) as nat
    } else {
        0
    }
}

/// The width `centered_rect_by_height` asks for: the percentage of the
/// area's width, at most the width less two.
pub open spec fn percent_width(percent_x: nat, area: Rect) -> nat {
    min_nat(((area.width * percent_x) / 100) as nat, sat_sub(area.width as nat, 2))
}

/// The height `centered_rect_by_height` asks for: at most the area's height
/// less two.
pub open spec fn capped_height(height: nat, area: Rect) -> nat {
    min_nat(height, sat_sub(area.height as nat, 2))
}

/// A popup of a percentage of the area's width and a given height, both
/// kept two cells inside the area, then centered as `centered_rect_abs` does.
pub fn centered_rect_by_height(percent_x: u16, height: u16, area: Rect) -> (r: Rect)
    requires
        area.width * percent_x <= u16::MAX,
        centered_fits(percent_width(percent_x as nat, area), capped_height(height as nat, area), area),
    ensures
        r.width == popup_width(percent_width(percent_x as nat, area), area),
        r.height == popup_height(capped_height(height as nat, area), area),
        r.x == area.x + (area.width - r.width) / 2,
        r.y == area.y + (area.height - r.height) / 2,
{
    let scaled = area.width * percent_x / 100;
    let limit_w = if area.width >= 2 {
        area.width - 2
    } else {
        0
    };
    let width = if scaled < limit_w {
        scaled
    } else {
        limit_w
    };
    let limit_h = if area.height >= 2 {
        area.height - 2
    } else {
        0
    };
    let h = if height < limit_h {
        height
    } else {
        limit_h
    };
    centered_rect_abs(width, h, area)
}

/// The area shrunk by `pad` cells on every side.
pub fn padded_rect(area: Rect, pad: u16) -> (r: Rect)
    requires
        area.x + pad <= u16::MAX,
        area.y + pad <= u16::MAX,
        pad * 2 <= u16::MAX,
    ensures
        r.x == area.x + pad,
        r.y == area.y + pad,
        r.width == sat_sub(area.width as nat, (2 * pad) as nat),
        r.height == sat_sub(area.height as nat, (2 * pad) as nat),
{
    let twice = pad * 2;
    Rect {
        x: area.x + pad,
        y: area.y + pad,
        width: if area.width >= twice {
            area.width - twice
        } else {
            0
        },
        height: if area.height >= twice {
            area.height - twice
        } else {
            0
        },
    }
}

/// The selection of a list: which row is highlighted, if any.
#[derive(Debug, Clone, Copy, PartialEq, Eq, Structural)]
pub struct ListState {
    pub selection: Option<usize>,
}

impl ListState {
    /// The highlighted row, if any.
    pub fn selected(&self) -> (r: Option<usize>)
        ensures
            r == self.selection,
    {
        self.selection
    }
}

/// The selection shown for a list of `len` rows: none for an empty list,
/// otherwise `selected` kept on the last row.
pub open spec fn clamped_selection(selected: nat, len: nat) -> Option<usize> {
    if len == 0 {
        None
    } else if selected <= len - 1 {
        Some(selected as usize)
    } else {
        Some((len - 1) as usize)
    }
}

/// The list selection for `selected` among `len` rows.
pub fn list_state(selected: usize, len: usize) -> (r: ListState)
    ensures
        r.selection == clamped_selection(selected as nat, len as nat),
{
    if len == 0 {
        ListState { selection: None }
    } else if selected <= len - 1 {
        ListState { selection: Some(selected) }
    } else {
        ListState { selection: Some(len - 1) }
    }
}

/// The rows `[start, end)` of a list of `len` rows that a pane of
/// `height` rows shows so that row `selected` is visible: from the top,
/// or scrolled so that the selection is the last row shown.
pub open spec fn visible_window(selected: nat, height: nat, len: nat) -> (nat, nat) {
    if len == 0 || height == 0 {
        (0, 0)
    } else if selected + 1 > height {
        let start = (selected + 1 - height) as nat;
        (start, min_nat(start + height, len))
    } else {
        (0, min_nat(len, height))
    }
}

/// The rows of the saved connections list that a pane shows.
pub fn saved_list_window(selected: usize, height: usize, len: usize) -> (r: (usize, usize))
    requires
        selected < usize::MAX,
    ensures
        (r.0 as nat, r.1 as nat) == visible_window(selected as nat, height as nat, len as nat),
{
    if len == 0 || height == 0 {
        (0, 0)
    } else if selected + 1 > height {
        let start = selected + 1 - height;
        let end = if selected + 1 <= len {
            selected + 1
        } else {
            len
        };
        (start, end)
    } else {
        (0, if len < height {
            len
        } else {
            height
        })
    }
}

/// How far a form of `lines` lines scrolls in a pane of `visible` lines to
/// show the active row: not at all where it fits; otherwise so that the
/// active row is the last shown, never past the end.
pub open spec fn form_scroll_offset(lines: nat, visible: nat, active_row: nat) -> nat {
    if lines > visible {
        let offset = sat_sub(active_row + 1, visible);
        min_nat(offset, (lines - visible) as nat)
    } else {
        0
    }
}

/// The scroll offset of a form (see `form_scroll_offset`).
pub fn form_scroll(lines: usize, visible: usize, active_row: usize) -> (r: usize)
    requires
        active_row < usize::MAX,
    ensures
        r == form_scroll_offset(lines as nat, visible as nat, active_row as nat),
{
    if lines > visible {
        let offset = if active_row + 1 > visible {
            active_row + 1 - visible
        } else {
            0
        };
        let max_offset = lines - visible;
        if offset > max_offset {
            max_offset
        } else {
            offset
        }
    } else {
        0
    }
}

/// The middle part of `area` when ratatui's layout splits it, along rows
/// where `vertical` and along columns otherwise, into three parts of
/// `side`, `middle` and `side` percent.
pub uninterp spec fn split_middle(area: Rect, vertical: bool, side: u16, middle: u16) -> Rect;

/// The middle part of a three-way percentage split of `area`.
///
/// Wraps `ratatui::layout::Layout::split` with three `Constraint::Percentage`
/// constraints. The contract names its result, which depends on the area,
/// the direction and the shares alone; how ratatui's solver rounds the
/// shares into cells is left unsaid.
#[verifier::external_body]
fn layout_middle(area: Rect, vertical: bool, side: u16, middle: u16) -> (r: Rect)
    ensures
        r == split_middle(area, vertical, side, middle),
{
    let direction = if vertical {
        ratatui::layout::Direction::Vertical
    } else {
        ratatui::layout::Direction::Horizontal
    };
    let parts = ratatui::layout::Layout::default().direction(direction).constraints([
        ratatui::layout::Constraint::Percentage(side),
        ratatui::layout::Constraint::Percentage(middle),
        ratatui::layout::Constraint::Percentage(side),
    ]).split(ratatui::layout::Rect { x: area.x, y: area.y, width: area.width, height: area.height });
    Rect { x: parts[1].x, y: parts[1].y, width: parts[1].width, height: parts[1].height }
}

/// The half of what is left beside a middle share of `percent` percent.
pub open spec fn side_share(percent: u16) -> u16 {
    ((100 - percent) / 2) as u16
}

/// A popup that takes `percent_y` percent of the rows and `percent_x`
/// percent of the columns of `area`, in the middle of both: the rows are
/// split first, then the middle band's columns.
pub fn centered_rect(percent_x: u16, percent_y: u16, area: Rect) -> (r: Rect)
    requires
        percent_x <= 100,
        percent_y <= 100,
    ensures
        r == split_middle(
            split_middle(area, true, side_share(percent_y), percent_y),
            false,
            side_share(percent_x),
            percent_x,
        ),
{
    let rows = layout_middle(area, true, (100 - percent_y) / 2, percent_y);
    layout_middle(rows, false, (100 - percent_x) / 2, percent_x)
}

} // verus!
