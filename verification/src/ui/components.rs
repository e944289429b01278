//! Where a click lands: the player bar, the sidebar and the search box.

use vstd::prelude::*;

use crate::state::AppState;
use crate::types::{PlaybackStatus, Screen};
use crate::ui::input::Action;

verus! {

/// A rectangle of terminal cells.
#[derive(Debug, Clone, Copy, PartialEq, Eq, Default, Structural)]
pub struct Rect {
    pub x: u16,
    pub y: u16,
    pub width: u16,
    pub height: u16,
}

/// The point lies in the rectangle.
pub open spec fn inside(x: int, y: int, area: Rect) -> bool {
    area.x <= x < area.x + area.width && area.y <= y < area.y + area.height
}

/// Testing whether (x, y) lies in `area` stays within 16 bits: the sums of
/// the tests are only computed when the tests before them passed.
pub open spec fn bounds_fit(x: int, y: int, area: Rect) -> bool {
    x < area.x || (area.x + area.width <= u16::MAX && (x >= area.x + area.width || y < area.y
        || area.y + area.height <= u16::MAX))
}

pub struct PlayerBar;

/// What a click on the player bar asks: the status icon toggles play while a
/// track is loaded, the right ten columns lower or raise the volume.
pub open spec fn player_bar_click(x: int, y: int, area: Rect, status: PlaybackStatus) -> Option<Action> {
    if !inside(x, y, area) {
        None
    } else {
        let rel_x = x - area.x;
        let w = area.width as int;
        if rel_x < 2 && status != PlaybackStatus::Stopped {
            Some(Action::PlayPause)
        } else if rel_x >= (if w >= 10 { w - 10 } else { 0 }) && rel_x < w {
            if rel_x - (w - 10) > 5 {
                Some(Action::VolumeUp)
            } else {
                Some(Action::VolumeDown)
            }
        } else {
            None
        }
    }
}

/// The click does not reach the volume test of a bar narrower than ten columns.
pub open spec fn player_bar_click_fits(x: int, y: int, area: Rect, status: PlaybackStatus) -> bool {
    &&& bounds_fit(x, y, area)
    &&& inside(x, y, area) && !(x - area.x < 2 && status != PlaybackStatus::Stopped) ==> area.width >= 10
}

impl PlayerBar {
    /// The volume half of the click is read as a tenth of the ten columns;
    /// a click counts as "up" when it is past the middle, that is more than
    /// five columns in.
    /// Whether a click at (x, y) can be read without leaving 16 bits.
    pub fn click_fits(x: u16, y: u16, area: Rect, status: PlaybackStatus) -> (b: bool)
        ensures
            b == player_bar_click_fits(x as int, y as int, area, status),
    {
        let (x, y) = (x as u32, y as u32);
        let (ax, ay, aw, ah) = (area.x as u32, area.y as u32, area.width as u32, area.height as u32);
        let max: u32 = 65535;
        let bounds = x < ax || (ax + aw <= max && (x >= ax + aw || y < ay || ay + ah <= max));
        let is_inside = ax <= x && x < ax + aw && ay <= y && y < ay + ah;
        let toggles = is_inside && x - ax < 2 && status != PlaybackStatus::Stopped;
        bounds && (!(is_inside && !toggles) || aw >= 10)
    }

    pub fn handle_click(&self, x: u16, y: u16, area: Rect, state: &AppState) -> (a: Option<Action>)
        requires
            player_bar_click_fits(x as int, y as int, area, state.playback.status),
        ensures
            a == player_bar_click(x as int, y as int, area, state.playback.status),
    {
        if x < area.x || x >= area.x + area.width || y < area.y || y >= area.y + area.height {
            return None;
        }
        let rel_x = x - area.x;
        if rel_x < 2 {
            if state.playback.status != PlaybackStatus::Stopped {
                return Some(Action::PlayPause);
            }
        }
        let width = area.width;
        let low = if width >= 10 {
            width - 10
        } else {
            0
        };
        if rel_x >= low && rel_x < width {
            let offset = rel_x - (width - 10);
            if offset > 5 {
                return Some(Action::VolumeUp);
            } else {
                return Some(Action::VolumeDown);
            }
        }
        None
    }
}

pub struct SearchInput;

impl SearchInput {
    pub fn handle_mouse_click(&self, x: u16, y: u16, area: Rect) -> (b: bool)
        requires
            x >= area.x ==> area.x + area.width <= u16::MAX,
            x >= area.x && x < area.x + area.width && y >= area.y ==> area.y + area.height
                <= u16::MAX,
        ensures
            b == inside(x as int, y as int, area),
    {
        x >= area.x && x < area.x + area.width && y >= area.y && y < area.y + area.height
    }
}

pub struct Sidebar {
    pub items: Vec<(Screen, &'static str, &'static str)>,
    pub selected_index: usize,
}

/// The screens the sidebar lists, in order.
pub open spec fn sidebar_screens() -> Seq<Screen> {
    seq![
        Screen::Home,
        Screen::Search,
        Screen::Library,
        Screen::Albums,
        Screen::Artists,
        Screen::Playlists,
        Screen::Queue,
        Screen::Downloads,
        Screen::Settings,
    ]
}

/// The row of the sidebar under (x, y), inside its border.
pub open spec fn sidebar_row(x: int, y: int, area: Rect) -> Option<int> {
    if x < area.x || x >= area.x + area.width || y < area.y + 1 || y >= area.y + area.height - 1 {
        None
    } else {
        Some(y - area.y - 1)
    }
}

/// The tests of a sidebar click stay within 16 bits: each sum or difference
/// is computed only when the tests before it passed.
pub open spec fn sidebar_click_fits(x: int, y: int, area: Rect) -> bool {
    x < area.x || (area.x + area.width <= u16::MAX && (x >= area.x + area.width || (area.y + 1
        <= u16::MAX && (y < area.y + 1 || (area.y + area.height <= u16::MAX && area.y + area.height
        >= 1)))))
}

impl Sidebar {
    pub fn new() -> (s: Self)
        ensures
            s.items@.len() == 9,
            forall|i: int| 0 <= i < 9 ==> #[trigger] s.items@[i].0 == sidebar_screens()[i],
            s.items@[0].2@ == "Home"@,
            s.items@[8].2@ == "Settings"@,
            s.selected_index == 0,
    {
        let mut items: Vec<(Screen, &'static str, &'static str)> = Vec::new();
        items.push((Screen::Home, "\u{f021c}", "Home"));
        items.push((Screen::Search, "\u{f0948}", "Search"));
        items.push((Screen::Library, "\u{f02ed}", "Library"));
        items.push((Screen::Albums, "\u{f0025}", "Albums"));
        items.push((Screen::Artists, "\u{f0803}", "Artists"));
        items.push((Screen::Playlists, "\u{f02cb}", "Playlists"));
        items.push((Screen::Queue, "\u{f0661}", "Queue"));
        items.push((Screen::Downloads, "\u{f1d85}", "Downloads"));
        items.push((Screen::Settings, "\u{f0493}", "Settings"));
        Sidebar { items, selected_index: 0 }
    }

    /// Whether a click at (x, y) can be read without leaving 16 bits.
    pub fn click_fits(x: u16, y: u16, area: Rect) -> (b: bool)
        ensures
            b == sidebar_click_fits(x as int, y as int, area),
    {
        let (x, y) = (x as u32, y as u32);
        let (ax, ay, aw, ah) = (area.x as u32, area.y as u32, area.width as u32, area.height as u32);
        let max: u32 = 65535;
        x < ax || (ax + aw <= max && (x >= ax + aw || (ay + 1 <= max && (y < ay + 1 || (ay + ah <= max && ay
            + ah >= 1)))))
    }

    /// The screen of the sidebar row under the click.
    pub fn handle_click(&self, x: u16, y: u16, area: Rect) -> (r: Option<Screen>)
        requires
            sidebar_click_fits(x as int, y as int, area),
        ensures
            match sidebar_row(x as int, y as int, area) {
                Some(k) => if k < self.items@.len() {
                    r == Some(self.items@[k].0)
                } else {
                    r is None
                },
                None => r is None,
            },
    {
        if x < area.x || x >= area.x + area.width || y < area.y + 1 || y >= area.y + area.height - 1 {
            return None;
        }
        let y_offset = (y - area.y - 1) as usize;
        if y_offset < self.items.len() {
            Some(self.items[y_offset].0.duplicate())
        } else {
            None
        }
    }
}

impl Default for Sidebar {
    fn default() -> (s: Self)
        ensures
            s.items@.len() == 9,
            s.selected_index == 0,
    {
        Sidebar::new()
    }
}

} // verus!
