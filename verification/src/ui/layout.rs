//! Where the sidebar, the main area and the player bar go on the screen.
//! The sizes come from ratatui's constraint layout.

use vstd::prelude::*;

use crate::ui::components::Rect;

verus! {

/// The main area and the player bar that ratatui's vertical layout with
/// constraints `[Min(1), Length(3)]` makes of `area`. The solver takes pages
/// to state, so the result is named.
pub uninterp spec fn main_and_bar(area: Rect) -> (Rect, Rect);

/// The sidebar and the rest that ratatui's horizontal layout with
/// constraints `[Length(width), Min(1)]` makes of `area`; named for the same
/// reason.
pub uninterp spec fn sidebar_and_rest(area: Rect, width: u16) -> (Rect, Rect);

/// `Layout::split` of a vertical layout `[Min(1), Length(3)]`; the result is
/// named by `main_and_bar`.
#[verifier::external_body]
fn split_main_and_bar(area: Rect) -> (r: (Rect, Rect))
    ensures
        r == main_and_bar(area),
{
    let r = ratatui::layout::Rect { x: area.x, y: area.y, width: area.width, height: area.height };
    let p = ratatui::layout::Layout::vertical([
        ratatui::layout::Constraint::Min(1),
        ratatui::layout::Constraint::Length(3),
    ]).split(r);
    (Rect { x: p[0].x, y: p[0].y, width: p[0].width, height: p[0].height },
     Rect { x: p[1].x, y: p[1].y, width: p[1].width, height: p[1].height })
}

/// `Layout::split` of a horizontal layout `[Length(width), Min(1)]`; the
/// result is named by `sidebar_and_rest`.
#[verifier::external_body]
fn split_sidebar(area: Rect, width: u16) -> (r: (Rect, Rect))
    ensures
        r == sidebar_and_rest(area, width),
{
    let r = ratatui::layout::Rect { x: area.x, y: area.y, width: area.width, height: area.height };
    let p = ratatui::layout::Layout::horizontal([
        ratatui::layout::Constraint::Length(width),
        ratatui::layout::Constraint::Min(1),
    ]).split(r);
    (Rect { x: p[0].x, y: p[0].y, width: p[0].width, height: p[0].height },
     Rect { x: p[1].x, y: p[1].y, width: p[1].width, height: p[1].height })
}

/// The areas of the screen.
#[derive(Debug, Clone, Copy, PartialEq, Eq, Structural)]
pub struct Rects {
    pub sidebar: Rect,
    pub main: Rect,
    pub player_bar: Rect,
}

/// Whether the sidebar is shown.
#[derive(Debug, Clone, Copy, PartialEq, Eq, Structural)]
pub struct AppLayout {
    pub sidebar_visible: bool,
}

impl AppLayout {
    /// The player bar at the bottom; above it the sidebar of the configured
    /// width, where shown, and the main area.
    pub fn render_area(&self, area: Rect, sidebar_width: u16) -> (r: Rects)
        ensures
            r.player_bar == main_and_bar(area).1,
            self.sidebar_visible ==> r.sidebar == sidebar_and_rest(main_and_bar(area).0, sidebar_width).0 && r.main
                == sidebar_and_rest(main_and_bar(area).0, sidebar_width).1,
            !self.sidebar_visible ==> r.sidebar == (Rect { x: 0, y: 0, width: 0, height: 0 }) && r.main == main_and_bar(
                area,
            ).0,
    {
        let (main_area, player_bar) = split_main_and_bar(area);
        if self.sidebar_visible {
            let (sidebar, main) = split_sidebar(main_area, sidebar_width);
            Rects { sidebar, main, player_bar }
        } else {
            Rects { sidebar: Rect { x: 0, y: 0, width: 0, height: 0 }, main: main_area, player_bar }
        }
    }
}

} // verus!
