//! The file list beside the editor: what a click on it hits, and how the
//! wheel scrolls it.

use vstd::prelude::*;
use crate::scroll::{max_scroll, scroll_limit, Area};

verus! {

/// What a click on the file list hit.
#[derive(Clone, Copy, Debug, PartialEq, Eq, Structural)]
pub enum SidebarHit {
    /// The click fell outside the rows of the list.
    Outside,
    /// The click fell on the row that leads to the parent directory.
    Parent,
    /// The click fell on the entry with this index.
    Entry(usize),
    /// The click fell on a row below the last entry.
    Blank,
}

/// Whether the cell `(x, y)` lies on a row of the list: inside the area,
/// below its top border and above its bottom border.
pub open spec fn on_list_row(area: Area, x: u16, y: u16) -> bool {
    area.x <= x < area.x + area.width && area.y < y && y < area.y + if area.height >= 1 {
        area.height - 1
    } else {
        0
    }
}

/// What a click at `(x, y)` hits in a list of `entry_count` entries that is
/// scrolled by `scroll` rows and, where `show_parent` holds, begins with a
/// row for the parent directory.
pub open spec fn sidebar_hit(
    area: Area,
    x: u16,
    y: u16,
    scroll: nat,
    entry_count: nat,
    show_parent: bool,
) -> SidebarHit {
    if on_list_row(area, x, y) {
        let index = y - area.y - 1 + scroll;
        if show_parent && index == 0 {
            SidebarHit::Parent
        } else {
            let entry = if show_parent { index - 1 } else { index };
            if entry < entry_count {
                SidebarHit::Entry(entry as usize)
            } else {
                SidebarHit::Blank
            }
        }
    } else {
        SidebarHit::Outside
    }
}

/// The offset of the list after the wheel turned by `delta` rows over the
/// cell `(x, y)`: unchanged outside the area; inside it, down to 0 at most
/// when the wheel turns back, and up to the last offset that still fills
/// the area when it turns on.
pub open spec fn sidebar_offset(
    area: Area,
    x: u16,
    y: u16,
    delta: int,
    scroll: nat,
    entry_count: nat,
    show_parent: bool,
) -> nat {
    if area.holds(x, y) {
        let total = entry_count + if show_parent { 1nat } else { 0nat };
        let limit = scroll_limit(total, Area::inner(area.height));
        if delta < 0 {
            if scroll + delta > 0 {
                (scroll + delta) as nat
            } else {
                0
            }
        } else if scroll + delta < limit {
            (scroll + delta) as nat
        } else {
            limit
        }
    } else {
        scroll
    }
}

/// See [`sidebar_hit`].
pub fn handle_sidebar_click(
    x: u16,
    y: u16,
    sidebar_area: &Area,
    sidebar_scroll: usize,
    entry_count: usize,
    show_parent: bool,
) -> (r: SidebarHit)
    ensures
        r == sidebar_hit(
            *sidebar_area,
            x,
            y,
            sidebar_scroll as nat,
            entry_count as nat,
            show_parent,
        ),
{
    let xi: u32 = x as u32;
    let yi: u32 = y as u32;
    let ax: u32 = sidebar_area.x as u32;
    let ay: u32 = sidebar_area.y as u32;
    let below: u32 = if sidebar_area.height >= 1 { (sidebar_area.height - 1) as u32 } else { 0 };
    if xi >= ax && xi < ax + sidebar_area.width as u32 && yi > ay && yi < ay + below {
        let index: u128 = (yi - ay - 1) as u128 + sidebar_scroll as u128;
        if show_parent && index == 0 {
            SidebarHit::Parent
        } else {
            let entry: u128 = if show_parent { index - 1 } else { index };
            if entry < entry_count as u128 {
                SidebarHit::Entry(entry as usize)
            } else {
                SidebarHit::Blank
            }
        }
    } else {
        SidebarHit::Outside
    }
}

/// See [`sidebar_offset`]. A list cannot hold as many entries as the
/// largest `usize`.
pub fn handle_sidebar_scroll(
    x: u16,
    y: u16,
    delta: i16,
    sidebar_area: &Area,
    sidebar_scroll: usize,
    entry_count: usize,
    show_parent: bool,
) -> (r: usize)
    requires
        entry_count < usize::MAX,
    ensures
        r == sidebar_offset(
            *sidebar_area,
            x,
            y,
            delta as int,
            sidebar_scroll as nat,
            entry_count as nat,
            show_parent,
        ),
{
    if !sidebar_area.contains(x, y) {
        return sidebar_scroll;
    }
    let visible = sidebar_area.inner_height();
    let total: usize = if show_parent { entry_count + 1 } else { entry_count };
    let limit = max_scroll(total, visible);
    if delta < 0 {
        let back: usize = (-(delta as i32)) as usize;
        if sidebar_scroll >= back {
            sidebar_scroll - back
        } else {
            0
        }
    } else {
        let fwd: usize = delta as usize;
        if sidebar_scroll >= limit || fwd >= limit - sidebar_scroll {
            limit
        } else {
            sidebar_scroll + fwd
        }
    }
}

} // verus!
