//! Color themes: the four built-in palettes, color names and hex codes, and
//! a user's overrides of single colors.

use vstd::prelude::*;
use vstd::string::*;

use crate::errors::{Result, SymphonyError};
use crate::provider::catalog::{chars_of, lowercase, same_text, to_lower};
use crate::text::text_of;

verus! {

/// A terminal color.
#[derive(Debug, Clone, Copy, PartialEq, Eq, Structural)]
pub enum Color {
    Reset,
    Black,
    Red,
    Green,
    Yellow,
    Blue,
    Magenta,
    Cyan,
    Gray,
    DarkGray,
    LightRed,
    LightGreen,
    LightYellow,
    LightBlue,
    LightMagenta,
    LightCyan,
    White,
    Rgb(u8, u8, u8),
}

/// How text is drawn: its colors and whether it is bold or underlined.
#[derive(Debug, Clone, Copy, PartialEq, Eq, Structural)]
pub struct Style {
    pub fg: Option<Color>,
    pub bg: Option<Color>,
    pub bold: bool,
    pub underlined: bool,
}

#[derive(Debug, Clone, Copy, PartialEq, Eq, Structural)]
pub struct ThemeColors {
    pub background: Color,
    pub surface: Color,
    pub surface_light: Color,
    pub primary: Color,
    pub primary_dim: Color,
    pub secondary: Color,
    pub accent: Color,
    pub text: Color,
    pub text_dim: Color,
    pub text_bright: Color,
    pub highlight: Color,
    pub error: Color,
    pub success: Color,
    pub warning: Color,
    pub border: Color,
    pub progress_bar: Color,
    pub progress_bar_track: Color,
    pub sidebar_bg: Color,
    pub sidebar_selected: Color,
    pub search_bg: Color,
    pub player_bar_bg: Color,
}

#[derive(Debug, Clone, Copy, PartialEq, Eq, Structural)]
pub struct ThemeStyles {
    pub title: Style,
    pub subtitle: Style,
    pub selected: Style,
    pub highlighted: Style,
    pub dim: Style,
    pub error: Style,
    pub success: Style,
    pub link: Style,
    pub active_tab: Style,
    pub inactive_tab: Style,
}

#[derive(Debug)]
pub struct Theme {
    pub name: String,
    pub colors: ThemeColors,
    pub styles: ThemeStyles,
}

pub open spec fn style_of(fg: Option<Color>, bg: Option<Color>, bold: bool, underlined: bool) -> Style {
    Style { fg, bg, bold, underlined }
}

/// The styles of a theme: all themes share their shape and differ in the
/// colors of the selection, of highlighted text and of links.
pub open spec fn styles_of(
    c: ThemeColors,
    selected_fg: Color,
    selected_bg: Color,
    highlighted_fg: Color,
    link_fg: Color,
) -> ThemeStyles {
    ThemeStyles {
        title: style_of(Some(c.text_bright), None, true, false),
        subtitle: style_of(Some(c.text_dim), None, false, false),
        selected: style_of(Some(selected_fg), Some(selected_bg), true, false),
        highlighted: style_of(Some(highlighted_fg), None, true, false),
        dim: style_of(Some(c.text_dim), None, false, false),
        error: style_of(Some(c.error), None, true, false),
        success: style_of(Some(c.success), None, false, false),
        link: style_of(Some(link_fg), None, false, true),
        active_tab: style_of(Some(c.text_bright), Some(c.surface), true, false),
        inactive_tab: style_of(Some(c.text_dim), Some(c.background), false, false),
    }
}

fn make_styles(
    c: ThemeColors,
    selected_fg: Color,
    selected_bg: Color,
    highlighted_fg: Color,
    link_fg: Color,
) -> (s: ThemeStyles)
    ensures
        s == styles_of(c, selected_fg, selected_bg, highlighted_fg, link_fg),
{
    ThemeStyles {
        title: Style { fg: Some(c.text_bright), bg: None, bold: true, underlined: false },
        subtitle: Style { fg: Some(c.text_dim), bg: None, bold: false, underlined: false },
        selected: Style { fg: Some(selected_fg), bg: Some(selected_bg), bold: true, underlined: false },
        highlighted: Style { fg: Some(highlighted_fg), bg: None, bold: true, underlined: false },
        dim: Style { fg: Some(c.text_dim), bg: None, bold: false, underlined: false },
        error: Style { fg: Some(c.error), bg: None, bold: true, underlined: false },
        success: Style { fg: Some(c.success), bg: None, bold: false, underlined: false },
        link: Style { fg: Some(link_fg), bg: None, bold: false, underlined: true },
        active_tab: Style { fg: Some(c.text_bright), bg: Some(c.surface), bold: true, underlined: false },
        inactive_tab: Style { fg: Some(c.text_dim), bg: Some(c.background), bold: false, underlined: false },
    }
}

/// The colors of the default theme.
pub open spec fn dark_colors() -> ThemeColors {
    ThemeColors {
        background: Color::Rgb(15, 15, 20),
        surface: Color::Rgb(22, 22, 30),
        surface_light: Color::Rgb(30, 30, 42),
        primary: Color::Rgb(0, 150, 255),
        primary_dim: Color::Rgb(0, 110, 200),
        secondary: Color::Rgb(100, 180, 255),
        accent: Color::Rgb(0, 200, 200),
        text: Color::Rgb(220, 220, 230),
        text_dim: Color::Rgb(130, 130, 150),
        text_bright: Color::Rgb(255, 255, 255),
        highlight: Color::Rgb(0, 120, 220),
        error: Color::Rgb(230, 60, 60),
        success: Color::Rgb(60, 200, 100),
        warning: Color::Rgb(255, 180, 50),
        border: Color::Rgb(60, 60, 80),
        progress_bar: Color::Rgb(0, 150, 255),
        progress_bar_track: Color::Rgb(30, 30, 42),
        sidebar_bg: Color::Rgb(18, 18, 26),
        sidebar_selected: Color::Rgb(0, 100, 200),
        search_bg: Color::Rgb(25, 25, 36),
        player_bar_bg: Color::Rgb(18, 18, 26),
    }
}

/// The colors of the catppuccin-mocha theme.
pub open spec fn mocha_colors() -> ThemeColors {
    ThemeColors {
        background: Color::Rgb(30, 30, 46),
        surface: Color::Rgb(49, 50, 68),
        surface_light: Color::Rgb(69, 71, 90),
        primary: Color::Rgb(137, 180, 250),
        primary_dim: Color::Rgb(116, 163, 240),
        secondary: Color::Rgb(148, 226, 213),
        accent: Color::Rgb(243, 139, 168),
        text: Color::Rgb(205, 214, 244),
        text_dim: Color::Rgb(147, 153, 178),
        text_bright: Color::Rgb(255, 255, 255),
        highlight: Color::Rgb(137, 180, 250),
        error: Color::Rgb(243, 139, 168),
        success: Color::Rgb(166, 227, 161),
        warning: Color::Rgb(249, 226, 175),
        border: Color::Rgb(69, 71, 90),
        progress_bar: Color::Rgb(137, 180, 250),
        progress_bar_track: Color::Rgb(49, 50, 68),
        sidebar_bg: Color::Rgb(24, 24, 37),
        sidebar_selected: Color::Rgb(137, 180, 250),
        search_bg: Color::Rgb(49, 50, 68),
        player_bar_bg: Color::Rgb(24, 24, 37),
    }
}

/// The colors of the dracula theme.
pub open spec fn dracula_colors() -> ThemeColors {
    ThemeColors {
        background: Color::Rgb(40, 42, 54),
        surface: Color::Rgb(68, 71, 90),
        surface_light: Color::Rgb(98, 102, 120),
        primary: Color::Rgb(189, 147, 249),
        primary_dim: Color::Rgb(165, 120, 230),
        secondary: Color::Rgb(139, 233, 253),
        accent: Color::Rgb(255, 121, 198),
        text: Color::Rgb(248, 248, 242),
        text_dim: Color::Rgb(98, 102, 120),
        text_bright: Color::Rgb(255, 255, 255),
        highlight: Color::Rgb(189, 147, 249),
        error: Color::Rgb(255, 85, 85),
        success: Color::Rgb(80, 250, 123),
        warning: Color::Rgb(241, 250, 140),
        border: Color::Rgb(68, 71, 90),
        progress_bar: Color::Rgb(189, 147, 249),
        progress_bar_track: Color::Rgb(68, 71, 90),
        sidebar_bg: Color::Rgb(33, 34, 44),
        sidebar_selected: Color::Rgb(189, 147, 249),
        search_bg: Color::Rgb(68, 71, 90),
        player_bar_bg: Color::Rgb(33, 34, 44),
    }
}

/// The colors of the nord theme.
pub open spec fn nord_colors() -> ThemeColors {
    ThemeColors {
        background: Color::Rgb(46, 52, 64),
        surface: Color::Rgb(59, 66, 82),
        surface_light: Color::Rgb(76, 86, 106),
        primary: Color::Rgb(136, 192, 208),
        primary_dim: Color::Rgb(105, 170, 190),
        secondary: Color::Rgb(163, 190, 140),
        accent: Color::Rgb(208, 135, 112),
        text: Color::Rgb(236, 239, 244),
        text_dim: Color::Rgb(147, 153, 178),
        text_bright: Color::Rgb(255, 255, 255),
        highlight: Color::Rgb(136, 192, 208),
        error: Color::Rgb(191, 97, 106),
        success: Color::Rgb(163, 190, 140),
        warning: Color::Rgb(235, 203, 139),
        border: Color::Rgb(76, 86, 106),
        progress_bar: Color::Rgb(136, 192, 208),
        progress_bar_track: Color::Rgb(59, 66, 82),
        sidebar_bg: Color::Rgb(40, 45, 56),
        sidebar_selected: Color::Rgb(136, 192, 208),
        search_bg: Color::Rgb(59, 66, 82),
        player_bar_bg: Color::Rgb(40, 45, 56),
    }
}


fn default_dark() -> (t: Theme)
    ensures
        t.name@ == "default"@,
        t.colors == dark_colors(),
        t.styles == styles_of(dark_colors(), dark_colors().text_bright, dark_colors().highlight, dark_colors().primary, dark_colors().secondary),
{
    let colors = ThemeColors {
            background: Color::Rgb(15, 15, 20),
            surface: Color::Rgb(22, 22, 30),
            surface_light: Color::Rgb(30, 30, 42),
            primary: Color::Rgb(0, 150, 255),
            primary_dim: Color::Rgb(0, 110, 200),
            secondary: Color::Rgb(100, 180, 255),
            accent: Color::Rgb(0, 200, 200),
            text: Color::Rgb(220, 220, 230),
            text_dim: Color::Rgb(130, 130, 150),
            text_bright: Color::Rgb(255, 255, 255),
            highlight: Color::Rgb(0, 120, 220),
            error: Color::Rgb(230, 60, 60),
            success: Color::Rgb(60, 200, 100),
            warning: Color::Rgb(255, 180, 50),
            border: Color::Rgb(60, 60, 80),
            progress_bar: Color::Rgb(0, 150, 255),
            progress_bar_track: Color::Rgb(30, 30, 42),
            sidebar_bg: Color::Rgb(18, 18, 26),
            sidebar_selected: Color::Rgb(0, 100, 200),
            search_bg: Color::Rgb(25, 25, 36),
            player_bar_bg: Color::Rgb(18, 18, 26),
        };
    let styles = make_styles(colors, colors.text_bright, colors.highlight, colors.primary, colors.secondary);
    Theme { name: String::from_str("default"), colors, styles }
}

fn catppuccin_mocha() -> (t: Theme)
    ensures
        t.name@ == "catppuccin-mocha"@,
        t.colors == mocha_colors(),
        t.styles == styles_of(mocha_colors(), mocha_colors().background, mocha_colors().primary, mocha_colors().accent, mocha_colors().primary),
{
    let colors = ThemeColors {
            background: Color::Rgb(30, 30, 46),
            surface: Color::Rgb(49, 50, 68),
            surface_light: Color::Rgb(69, 71, 90),
            primary: Color::Rgb(137, 180, 250),
            primary_dim: Color::Rgb(116, 163, 240),
            secondary: Color::Rgb(148, 226, 213),
            accent: Color::Rgb(243, 139, 168),
            text: Color::Rgb(205, 214, 244),
            text_dim: Color::Rgb(147, 153, 178),
            text_bright: Color::Rgb(255, 255, 255),
            highlight: Color::Rgb(137, 180, 250),
            error: Color::Rgb(243, 139, 168),
            success: Color::Rgb(166, 227, 161),
            warning: Color::Rgb(249, 226, 175),
            border: Color::Rgb(69, 71, 90),
            progress_bar: Color::Rgb(137, 180, 250),
            progress_bar_track: Color::Rgb(49, 50, 68),
            sidebar_bg: Color::Rgb(24, 24, 37),
            sidebar_selected: Color::Rgb(137, 180, 250),
            search_bg: Color::Rgb(49, 50, 68),
            player_bar_bg: Color::Rgb(24, 24, 37),
        };
    let styles = make_styles(colors, colors.background, colors.primary, colors.accent, colors.primary);
    Theme { name: String::from_str("catppuccin-mocha"), colors, styles }
}

fn dracula() -> (t: Theme)
    ensures
        t.name@ == "dracula"@,
        t.colors == dracula_colors(),
        t.styles == styles_of(dracula_colors(), dracula_colors().background, dracula_colors().primary, dracula_colors().accent, dracula_colors().primary),
{
    let colors = ThemeColors {
            background: Color::Rgb(40, 42, 54),
            surface: Color::Rgb(68, 71, 90),
            surface_light: Color::Rgb(98, 102, 120),
            primary: Color::Rgb(189, 147, 249),
            primary_dim: Color::Rgb(165, 120, 230),
            secondary: Color::Rgb(139, 233, 253),
            accent: Color::Rgb(255, 121, 198),
            text: Color::Rgb(248, 248, 242),
            text_dim: Color::Rgb(98, 102, 120),
            text_bright: Color::Rgb(255, 255, 255),
            highlight: Color::Rgb(189, 147, 249),
            error: Color::Rgb(255, 85, 85),
            success: Color::Rgb(80, 250, 123),
            warning: Color::Rgb(241, 250, 140),
            border: Color::Rgb(68, 71, 90),
            progress_bar: Color::Rgb(189, 147, 249),
            progress_bar_track: Color::Rgb(68, 71, 90),
            sidebar_bg: Color::Rgb(33, 34, 44),
            sidebar_selected: Color::Rgb(189, 147, 249),
            search_bg: Color::Rgb(68, 71, 90),
            player_bar_bg: Color::Rgb(33, 34, 44),
        };
    let styles = make_styles(colors, colors.background, colors.primary, colors.accent, colors.primary);
    Theme { name: String::from_str("dracula"), colors, styles }
}

fn nord() -> (t: Theme)
    ensures
        t.name@ == "nord"@,
        t.colors == nord_colors(),
        t.styles == styles_of(nord_colors(), nord_colors().background, nord_colors().primary, nord_colors().primary, nord_colors().primary),
{
    let colors = ThemeColors {
            background: Color::Rgb(46, 52, 64),
            surface: Color::Rgb(59, 66, 82),
            surface_light: Color::Rgb(76, 86, 106),
            primary: Color::Rgb(136, 192, 208),
            primary_dim: Color::Rgb(105, 170, 190),
            secondary: Color::Rgb(163, 190, 140),
            accent: Color::Rgb(208, 135, 112),
            text: Color::Rgb(236, 239, 244),
            text_dim: Color::Rgb(147, 153, 178),
            text_bright: Color::Rgb(255, 255, 255),
            highlight: Color::Rgb(136, 192, 208),
            error: Color::Rgb(191, 97, 106),
            success: Color::Rgb(163, 190, 140),
            warning: Color::Rgb(235, 203, 139),
            border: Color::Rgb(76, 86, 106),
            progress_bar: Color::Rgb(136, 192, 208),
            progress_bar_track: Color::Rgb(59, 66, 82),
            sidebar_bg: Color::Rgb(40, 45, 56),
            sidebar_selected: Color::Rgb(136, 192, 208),
            search_bg: Color::Rgb(59, 66, 82),
            player_bar_bg: Color::Rgb(40, 45, 56),
        };
    let styles = make_styles(colors, colors.background, colors.primary, colors.primary, colors.primary);
    Theme { name: String::from_str("nord"), colors, styles }
}


/// The built-in theme named `name`, by its colors.
pub open spec fn named_theme_colors(name: Seq<char>) -> Option<ThemeColors> {
    if name == "default"@ {
        Some(dark_colors())
    } else if name == "catppuccin-mocha"@ {
        Some(mocha_colors())
    } else if name == "dracula"@ {
        Some(dracula_colors())
    } else if name == "nord"@ {
        Some(nord_colors())
    } else {
        None
    }
}

/// The styles of the built-in theme named `name`.
pub open spec fn named_theme_styles(name: Seq<char>) -> Option<ThemeStyles> {
    if name == "default"@ {
        Some(styles_of(dark_colors(), dark_colors().text_bright, dark_colors().highlight, dark_colors().primary, dark_colors().secondary))
    } else if name == "catppuccin-mocha"@ {
        Some(styles_of(mocha_colors(), mocha_colors().background, mocha_colors().primary, mocha_colors().accent, mocha_colors().primary))
    } else if name == "dracula"@ {
        Some(styles_of(dracula_colors(), dracula_colors().background, dracula_colors().primary, dracula_colors().accent, dracula_colors().primary))
    } else if name == "nord"@ {
        Some(styles_of(nord_colors(), nord_colors().background, nord_colors().primary, nord_colors().primary, nord_colors().primary))
    } else {
        None
    }
}

/// The color that a name stands for (names are read in lowercase).
pub open spec fn named_color(name: Seq<char>) -> Option<Color> {
    if name == "reset"@ {
        Some(Color::Reset)
    } else if name == "black"@ {
        Some(Color::Black)
    } else if name == "red"@ {
        Some(Color::Red)
    } else if name == "green"@ {
        Some(Color::Green)
    } else if name == "yellow"@ {
        Some(Color::Yellow)
    } else if name == "blue"@ {
        Some(Color::Blue)
    } else if name == "magenta"@ {
        Some(Color::Magenta)
    } else if name == "cyan"@ {
        Some(Color::Cyan)
    } else if name == "white"@ {
        Some(Color::White)
    } else if name == "gray"@ || name == "grey"@ {
        Some(Color::Gray)
    } else if name == "dark_gray"@ || name == "dark_grey"@ {
        Some(Color::DarkGray)
    } else if name == "light_red"@ {
        Some(Color::LightRed)
    } else if name == "light_green"@ {
        Some(Color::LightGreen)
    } else if name == "light_yellow"@ {
        Some(Color::LightYellow)
    } else if name == "light_blue"@ {
        Some(Color::LightBlue)
    } else if name == "light_magenta"@ {
        Some(Color::LightMagenta)
    } else if name == "light_cyan"@ {
        Some(Color::LightCyan)
    } else if name == "light_white"@ {
        Some(Color::White)
    } else {
        None
    }
}

/// The name of each named color, in lowercase with words joined by `_`.
pub open spec fn color_name(c: Color) -> Option<Seq<char>> {
    match c {
        Color::Reset => Some("reset"@),
        Color::Black => Some("black"@),
        Color::Red => Some("red"@),
        Color::Green => Some("green"@),
        Color::Yellow => Some("yellow"@),
        Color::Blue => Some("blue"@),
        Color::Magenta => Some("magenta"@),
        Color::Cyan => Some("cyan"@),
        Color::Gray => Some("gray"@),
        Color::DarkGray => Some("dark_gray"@),
        Color::LightRed => Some("light_red"@),
        Color::LightGreen => Some("light_green"@),
        Color::LightYellow => Some("light_yellow"@),
        Color::LightBlue => Some("light_blue"@),
        Color::LightMagenta => Some("light_magenta"@),
        Color::LightCyan => Some("light_cyan"@),
        Color::White => Some("white"@),
        Color::Rgb(_, _, _) => None,
    }
}

/// Each color's own name reads as that color, and so do the other
/// spellings: "grey" for gray, "dark_grey" for dark gray, and "light_white"
/// for white.
pub proof fn lemma_color_names_read_back(c: Color)
    ensures
        color_name(c) matches Some(n) ==> named_color(n) == Some(c),
        named_color("grey"@) == Some(Color::Gray),
        named_color("dark_grey"@) == Some(Color::DarkGray),
        named_color("light_white"@) == Some(Color::White),
{
    reveal_strlit("reset");
    reveal_strlit("black");
    reveal_strlit("red");
    reveal_strlit("green");
    reveal_strlit("yellow");
    reveal_strlit("blue");
    reveal_strlit("magenta");
    reveal_strlit("cyan");
    reveal_strlit("white");
    reveal_strlit("gray");
    reveal_strlit("grey");
    reveal_strlit("dark_gray");
    reveal_strlit("dark_grey");
    reveal_strlit("light_red");
    reveal_strlit("light_green");
    reveal_strlit("light_yellow");
    reveal_strlit("light_blue");
    reveal_strlit("light_magenta");
    reveal_strlit("light_cyan");
    reveal_strlit("light_white");
    assert("reset"@[0] == 'r');
    assert("black"@[0] == 'b');
    assert("red"@[0] == 'r');
    assert("green"@[0] == 'g');
    assert("yellow"@[0] == 'y');
    assert("blue"@[0] == 'b');
    assert("magenta"@[0] == 'm');
    assert("cyan"@[0] == 'c');
    assert("white"@[0] == 'w');
    assert("gray"@[0] == 'g');
    assert("grey"@[0] == 'g');
    assert("dark_gray"@[0] == 'd');
    assert("dark_grey"@[0] == 'd');
    assert("light_red"@[0] == 'l');
    assert("light_green"@[0] == 'l');
    assert("light_yellow"@[0] == 'l');
    assert("light_blue"@[0] == 'l');
    assert("light_magenta"@[0] == 'l');
    assert("light_cyan"@[0] == 'l');
    assert("light_white"@[0] == 'l');
    assert("gray"@[2] == 'a');
    assert("grey"@[2] == 'e');
    assert("dark_gray"@[7] == 'a');
    assert("dark_grey"@[7] == 'e');
    assert("light_red"@[6] == 'r');
    assert("light_green"@[6] == 'g');
    assert("light_yellow"@[6] == 'y');
    assert("light_blue"@[6] == 'b');
    assert("light_magenta"@[6] == 'm');
    assert("light_cyan"@[6] == 'c');
    assert("light_white"@[6] == 'w');
    // Any two names differ in length, in their first character, or (for the
    // spellings of gray and the light colors) in one known place.
    assert("reset"@.len() == 5);
    assert("black"@.len() == 5);
    assert("red"@.len() == 3);
    assert("green"@.len() == 5);
    assert("yellow"@.len() == 6);
    assert("blue"@.len() == 4);
    assert("magenta"@.len() == 7);
    assert("cyan"@.len() == 4);
    assert("white"@.len() == 5);
    assert("gray"@.len() == 4);
    assert("grey"@.len() == 4);
    assert("dark_gray"@.len() == 9);
    assert("dark_grey"@.len() == 9);
    assert("light_red"@.len() == 9);
    assert("light_green"@.len() == 11);
    assert("light_yellow"@.len() == 12);
    assert("light_blue"@.len() == 10);
    assert("light_magenta"@.len() == 13);
    assert("light_cyan"@.len() == 10);
    assert("light_white"@.len() == 11);
}

/// A color text that is not a hex code and reads, in lowercase, as a
/// color's name gives that color.
pub proof fn lemma_color_text_reads_names(s: Seq<char>, c: Color)
    requires
        !(s.len() > 0 && s[0] == '#'),
        color_name(c) == Some(lowercase(s)),
    ensures
        color_text(s) == Ok::<Color, Seq<char>>(c),
{
    lemma_color_names_read_back(c);
}

fn color_by_name(name: &str) -> (c: Option<Color>)
    ensures
        c == named_color(name@),
{
    if same_text(name, "reset") {
        Some(Color::Reset)
    } else if same_text(name, "black") {
        Some(Color::Black)
    } else if same_text(name, "red") {
        Some(Color::Red)
    } else if same_text(name, "green") {
        Some(Color::Green)
    } else if same_text(name, "yellow") {
        Some(Color::Yellow)
    } else if same_text(name, "blue") {
        Some(Color::Blue)
    } else if same_text(name, "magenta") {
        Some(Color::Magenta)
    } else if same_text(name, "cyan") {
        Some(Color::Cyan)
    } else if same_text(name, "white") {
        Some(Color::White)
    } else if same_text(name, "gray") || same_text(name, "grey") {
        Some(Color::Gray)
    } else if same_text(name, "dark_gray") || same_text(name, "dark_grey") {
        Some(Color::DarkGray)
    } else if same_text(name, "light_red") {
        Some(Color::LightRed)
    } else if same_text(name, "light_green") {
        Some(Color::LightGreen)
    } else if same_text(name, "light_yellow") {
        Some(Color::LightYellow)
    } else if same_text(name, "light_blue") {
        Some(Color::LightBlue)
    } else if same_text(name, "light_magenta") {
        Some(Color::LightMagenta)
    } else if same_text(name, "light_cyan") {
        Some(Color::LightCyan)
    } else if same_text(name, "light_white") {
        Some(Color::White)
    } else {
        None
    }
}

/// The value of a hexadecimal digit.
pub open spec fn hex_digit(c: char) -> Option<nat> {
    if '0' <= c <= '9' {
        Some((c as int - '0' as int) as nat)
    } else if 'a' <= c <= 'f' {
        Some((c as int - 'a' as int + 10) as nat)
    } else if 'A' <= c <= 'F' {
        Some((c as int - 'A' as int + 10) as nat)
    } else {
        None
    }
}

/// The number that a run of hexadecimal digits writes, if all are digits.
pub open spec fn hex_value(s: Seq<char>) -> Option<nat>
    decreases s.len(),
{
    if s.len() == 0 {
        Some(0)
    } else {
        match (hex_value(s.drop_last()), hex_digit(s.last())) {
            (Some(v), Some(d)) => Some(v * 16 + d),
            _ => None,
        }
    }
}

/// How a byte is read from hexadecimal text: an optional `+`, then one or
/// more hexadecimal digits whose value fits in 8 bits.
pub open spec fn hex_byte_text(s: Seq<char>) -> Option<u8> {
    let d = if s.len() > 0 && s[0] == '+' {
        s.drop_first()
    } else {
        s
    };
    if d.len() > 0 {
        match hex_value(d) {
            Some(v) => if v <= 255 {
                Some(v as u8)
            } else {
                None
            },
            None => None,
        }
    } else {
        None
    }
}

/// The value of a hexadecimal digit character, where `c` is one.
fn hex_digit_of(c: char) -> (r: Option<u32>)
    ensures
        match hex_digit(c) {
            Some(d) => r == Some(d as u32) && d < 16,
            None => r is None,
        },
{
    if '0' <= c && c <= '9' {
        Some((c as u32) - ('0' as u32))
    } else if 'a' <= c && c <= 'f' {
        Some((c as u32) - ('a' as u32) + 10)
    } else if 'A' <= c && c <= 'F' {
        Some((c as u32) - ('A' as u32) + 10)
    } else {
        None
    }
}

/// Reading more hexadecimal digits never lowers the value, and a run that
/// holds a non-digit has no value.
proof fn lemma_hex_value_grows(s: Seq<char>, k: int, j: int)
    requires
        0 <= k <= j <= s.len(),
    ensures
        hex_value(s.take(k)) is None ==> hex_value(s.take(j)) is None,
        hex_value(s.take(k)) matches Some(v) ==> (hex_value(s.take(j)) matches Some(w) ==> v <= w),
    decreases j - k,
{
    if k < j {
        lemma_hex_value_grows(s, k, j - 1);
        assert(s.take(j).drop_last() =~= s.take(j - 1));
    }
}

/// The digits after an optional `+`.
spec fn unsigned_hex(s: Seq<char>) -> Seq<char> {
    if s.len() > 0 && s[0] == '+' {
        s.drop_first()
    } else {
        s
    }
}

/// Reads a byte from hexadecimal text, as `u8::from_str_radix(s, 16)` does:
/// an optional `+`, then one or more hexadecimal digits of either case whose
/// value is at most 255.
fn parse_hex_byte(s: &str) -> (r: Option<u8>)
    ensures
        r == hex_byte_text(s@),
{
    let chars = chars_of(s);
    let start: usize = if chars.len() > 0 && chars[0] == '+' {
        1
    } else {
        0
    };
    let ghost d = unsigned_hex(s@);
    assert(d.len() == chars@.len() - start);
    assert(forall|t: int| 0 <= t < d.len() ==> #[trigger] d[t] == chars@[start + t]);
    if start >= chars.len() {
        return None;
    }
    let mut value: u32 = 0;
    let mut i: usize = start;
    while i < chars.len()
        invariant
            start <= i <= chars@.len(),
            d == unsigned_hex(s@),
            d.len() == chars@.len() - start,
            forall|t: int| 0 <= t < d.len() ==> #[trigger] d[t] == chars@[start + t],
            hex_value(d.take(i - start)) == Some(value as nat),
            value <= 255,
        decreases chars@.len() - i,
    {
        let ghost k = i - start;
        assert(d.take(k + 1).drop_last() =~= d.take(k));
        assert(d.take(k + 1).last() == d[k]);
        assert(d[k] == chars@[i as int]);
        match hex_digit_of(chars[i]) {
            None => {
                proof {
                    lemma_hex_value_grows(d, k + 1, d.len() as int);
                    assert(d.take(d.len() as int) =~= d);
                }
                return None;
            },
            Some(dv) => {
                value = value * 16 + dv;
                if value > 255 {
                    proof {
                        lemma_hex_value_grows(d, k + 1, d.len() as int);
                        assert(d.take(d.len() as int) =~= d);
                    }
                    return None;
                }
            },
        }
        i = i + 1;
    }
    assert(d.take(d.len() as int) =~= d);
    Some(value as u8)
}

/// All characters are ASCII.
pub open spec fn ascii_only(s: Seq<char>) -> bool {
    forall|i: int| 0 <= i < s.len() ==> (#[trigger] s[i] as int) < 128
}

/// The hex code after `#`, with a three-digit code doubled digit by digit.
pub open spec fn expanded_hex(code: Seq<char>) -> Seq<char> {
    if code.len() == 3 {
        seq![code[0], code[0], code[1], code[1], code[2], code[2]]
    } else {
        code
    }
}

/// What a color text means: `#rgb` or `#rrggbb` in hexadecimal, or a color
/// name in any case; otherwise the message of the error.
pub open spec fn color_text(s: Seq<char>) -> std::result::Result<Color, Seq<char>> {
    if s.len() > 0 && s[0] == '#' {
        let hex = expanded_hex(s.drop_first());
        match hex_byte_text(hex.subrange(0, 2)) {
            None => Err("Invalid color hex: "@ + s),
            Some(r) => match hex_byte_text(hex.subrange(2, 4)) {
                None => Err("Invalid color hex: "@ + s),
                Some(g) => match hex_byte_text(hex.subrange(4, 6)) {
                    None => Err("Invalid color hex: "@ + s),
                    Some(b) => Ok(Color::Rgb(r, g, b)),
                },
            },
        }
    } else {
        match named_color(lowercase(s)) {
            Some(c) => Ok(c),
            None => Err("Unknown color: "@ + s),
        }
    }
}

/// A hex code is ASCII and long enough for each pair of digits that its
/// reading reaches; a shorter code would be cut past its end.
pub open spec fn color_text_readable(s: Seq<char>) -> bool {
    s.len() > 0 && s[0] == '#' ==> {
        let hex = expanded_hex(s.drop_first());
        &&& ascii_only(s)
        &&& hex.len() >= 2
        &&& hex_byte_text(hex.subrange(0, 2)) is Some ==> hex.len() >= 4
        &&& (hex_byte_text(hex.subrange(0, 2)) is Some && hex_byte_text(hex.subrange(2, 4)) is Some)
            ==> hex.len() >= 6
    }
}

fn invalid_hex(s: &str) -> (e: SymphonyError)
    ensures
        e == SymphonyError::Theme(e->Theme_0) && e->Theme_0@ == "Invalid color hex: "@ + s@,
{
    let mut m = String::from_str("Invalid color hex: ");
    m.append(s);
    SymphonyError::theme(m)
}

/// The hex code after the leading `#` of `chars`, a three-digit code doubled
/// digit by digit.
fn expand_hex_code(chars: &Vec<char>) -> (hex: Vec<char>)
    requires
        chars@.len() > 0,
    ensures
        hex@ == expanded_hex(chars@.drop_first()),
{
    let code_len = chars.len() - 1;
    let mut hex: Vec<char> = Vec::new();
    if code_len == 3 {
        hex.push(chars[1]);
        hex.push(chars[1]);
        hex.push(chars[2]);
        hex.push(chars[2]);
        hex.push(chars[3]);
        hex.push(chars[3]);
    } else {
        let mut i: usize = 1;
        while i < chars.len()
            invariant
                1 <= i <= chars@.len(),
                hex@ == chars@.subrange(1, i as int),
            decreases chars@.len() - i,
        {
            hex.push(chars[i]);
            assert(hex@ =~= chars@.subrange(1, i as int + 1));
            i = i + 1;
        }
    }
    assert(hex@ =~= expanded_hex(chars@.drop_first()));
    hex
}

/// Whether `parse_color` can read `s`: a hex code must be ASCII and long
/// enough for each pair of digits that its reading reaches.
pub fn color_readable(s: &str) -> (b: bool)
    ensures
        b == color_text_readable(s@),
{
    let chars = chars_of(s);
    if !(chars.len() > 0 && chars[0] == '#') {
        return true;
    }
    let mut i: usize = 0;
    while i < chars.len()
        invariant
            i <= chars@.len(),
            chars@ == s@,
            chars@.len() > 0 && chars@[0] == '#',
            forall|j: int| 0 <= j < i ==> (#[trigger] chars@[j] as int) < 128,
        decreases chars@.len() - i,
    {
        if chars[i] >= '\u{80}' {
            assert(!((s@[i as int] as int) < 128));
            return false;
        }
        i = i + 1;
    }
    let hex = expand_hex_code(&chars);
    if hex.len() < 2 {
        return false;
    }
    let red = parse_hex_byte(text_of(&hex, 0, 2).as_str());
    if red.is_some() && hex.len() < 4 {
        return false;
    }
    if red.is_some() && parse_hex_byte(text_of(&hex, 2, 4).as_str()).is_some() && hex.len() < 6 {
        return false;
    }
    true
}

/// Reads a color from a hex code or a name.
pub fn parse_color(s: &str) -> (r: Result<Color>)
    requires
        color_text_readable(s@),
    ensures
        match color_text(s@) {
            Ok(c) => r == Ok::<Color, SymphonyError>(c),
            Err(m) => r matches Err(SymphonyError::Theme(t)) && t@ == m,
        },
{
    let chars = chars_of(s);
    if chars.len() > 0 && chars[0] == '#' {
        let hex = expand_hex_code(&chars);
        let red = match parse_hex_byte(text_of(&hex, 0, 2).as_str()) {
            Some(v) => v,
            None => return Err(invalid_hex(s)),
        };
        let green = match parse_hex_byte(text_of(&hex, 2, 4).as_str()) {
            Some(v) => v,
            None => return Err(invalid_hex(s)),
        };
        let blue = match parse_hex_byte(text_of(&hex, 4, 6).as_str()) {
            Some(v) => v,
            None => return Err(invalid_hex(s)),
        };
        Ok(Color::Rgb(red, green, blue))
    } else {
        let lower = to_lower(s);
        match color_by_name(lower.as_str()) {
            Some(c) => Ok(c),
            None => {
                let mut m = String::from_str("Unknown color: ");
                m.append(s);
                Err(SymphonyError::theme(m))
            },
        }
    }
}

/// `colors` with the color under `key` replaced; nothing for an unknown key.
pub open spec fn with_color(colors: ThemeColors, key: Seq<char>, c: Color) -> Option<ThemeColors> {
    if key == "background"@ {
        Some(ThemeColors { background: c, ..colors })
    } else if key == "surface"@ {
        Some(ThemeColors { surface: c, ..colors })
    } else if key == "surface_light"@ {
        Some(ThemeColors { surface_light: c, ..colors })
    } else if key == "primary"@ {
        Some(ThemeColors { primary: c, ..colors })
    } else if key == "primary_dim"@ {
        Some(ThemeColors { primary_dim: c, ..colors })
    } else if key == "secondary"@ {
        Some(ThemeColors { secondary: c, ..colors })
    } else if key == "accent"@ {
        Some(ThemeColors { accent: c, ..colors })
    } else if key == "text"@ {
        Some(ThemeColors { text: c, ..colors })
    } else if key == "text_dim"@ {
        Some(ThemeColors { text_dim: c, ..colors })
    } else if key == "text_bright"@ {
        Some(ThemeColors { text_bright: c, ..colors })
    } else if key == "highlight"@ {
        Some(ThemeColors { highlight: c, ..colors })
    } else if key == "error"@ {
        Some(ThemeColors { error: c, ..colors })
    } else if key == "success"@ {
        Some(ThemeColors { success: c, ..colors })
    } else if key == "warning"@ {
        Some(ThemeColors { warning: c, ..colors })
    } else if key == "border"@ {
        Some(ThemeColors { border: c, ..colors })
    } else if key == "progress_bar"@ {
        Some(ThemeColors { progress_bar: c, ..colors })
    } else if key == "progress_bar_track"@ {
        Some(ThemeColors { progress_bar_track: c, ..colors })
    } else if key == "sidebar_bg"@ {
        Some(ThemeColors { sidebar_bg: c, ..colors })
    } else if key == "sidebar_selected"@ {
        Some(ThemeColors { sidebar_selected: c, ..colors })
    } else if key == "search_bg"@ {
        Some(ThemeColors { search_bg: c, ..colors })
    } else if key == "player_bar_bg"@ {
        Some(ThemeColors { player_bar_bg: c, ..colors })
    } else {
        None
    }
}

fn set_color(colors: &mut ThemeColors, key: &str, c: Color) -> (known: bool)
    ensures
        match with_color(*old(colors), key@, c) {
            Some(n) => known && *final(colors) == n,
            None => !known && *final(colors) == *old(colors),
        },
{
    if same_text(key, "background") {
        colors.background = c;
        true
    } else if same_text(key, "surface") {
        colors.surface = c;
        true
    } else if same_text(key, "surface_light") {
        colors.surface_light = c;
        true
    } else if same_text(key, "primary") {
        colors.primary = c;
        true
    } else if same_text(key, "primary_dim") {
        colors.primary_dim = c;
        true
    } else if same_text(key, "secondary") {
        colors.secondary = c;
        true
    } else if same_text(key, "accent") {
        colors.accent = c;
        true
    } else if same_text(key, "text") {
        colors.text = c;
        true
    } else if same_text(key, "text_dim") {
        colors.text_dim = c;
        true
    } else if same_text(key, "text_bright") {
        colors.text_bright = c;
        true
    } else if same_text(key, "highlight") {
        colors.highlight = c;
        true
    } else if same_text(key, "error") {
        colors.error = c;
        true
    } else if same_text(key, "success") {
        colors.success = c;
        true
    } else if same_text(key, "warning") {
        colors.warning = c;
        true
    } else if same_text(key, "border") {
        colors.border = c;
        true
    } else if same_text(key, "progress_bar") {
        colors.progress_bar = c;
        true
    } else if same_text(key, "progress_bar_track") {
        colors.progress_bar_track = c;
        true
    } else if same_text(key, "sidebar_bg") {
        colors.sidebar_bg = c;
        true
    } else if same_text(key, "sidebar_selected") {
        colors.sidebar_selected = c;
        true
    } else if same_text(key, "search_bg") {
        colors.search_bg = c;
        true
    } else if same_text(key, "player_bar_bg") {
        colors.player_bar_bg = c;
        true
    } else {
        false
    }
}

/// The colors after the overrides, applied in order; the first override that
/// fails gives the message of its error.
pub open spec fn overridden(colors: ThemeColors, overrides: Seq<(Seq<char>, Seq<char>)>) -> std::result::Result<
    ThemeColors,
    Seq<char>,
>
    decreases overrides.len(),
{
    if overrides.len() == 0 {
        Ok(colors)
    } else {
        match overridden(colors, overrides.drop_last()) {
            Err(m) => Err(m),
            Ok(c) => {
                let (key, value) = overrides.last();
                match color_text(value) {
                    Err(m) => Err(m),
                    Ok(color) => match with_color(c, key, color) {
                        Some(n) => Ok(n),
                        None => Err("Unknown theme color key: "@ + key),
                    },
                }
            },
        }
    }
}

/// The views of a list of key and value texts.
pub open spec fn pair_views(v: Seq<(String, String)>) -> Seq<(Seq<char>, Seq<char>)> {
    Seq::new(v.len(), |i: int| (v[i].0@, v[i].1@))
}

/// An unreadable override that the walk reaches breaks readability.
proof fn lemma_first_unreadable(colors: ThemeColors, s: Seq<(Seq<char>, Seq<char>)>, i: int)
    requires
        0 <= i < s.len(),
        overridden(colors, s.take(i)) is Ok,
        !color_text_readable(s[i].1),
    ensures
        !overrides_readable(colors, s),
{
}

/// Once an override fails, the ones after it change nothing.
proof fn lemma_overridden_stops(colors: ThemeColors, s: Seq<(Seq<char>, Seq<char>)>, k: int)
    requires
        0 <= k <= s.len(),
        overridden(colors, s.take(k)) is Err,
    ensures
        overridden(colors, s) == overridden(colors, s.take(k)),
    decreases s.len(),
{
    if k == s.len() {
        assert(s.take(k) =~= s);
    } else {
        assert(s.drop_last().take(k) =~= s.take(k));
        lemma_overridden_stops(colors, s.drop_last(), k);
    }
}

/// Every override that is reached has a readable color.
pub open spec fn overrides_readable(colors: ThemeColors, overrides: Seq<(Seq<char>, Seq<char>)>) -> bool {
    forall|i: int|
        0 <= i < overrides.len() && #[trigger] overridden(colors, overrides.take(i)) is Ok
            ==> color_text_readable(overrides[i].1)
}

impl Theme {
    pub fn new(name: &str, colors: ThemeColors, styles: ThemeStyles) -> (t: Self)
        ensures
            t.name@ == name@,
            t.colors == colors,
            t.styles == styles,
    {
        Theme { name: String::from_str(name), colors, styles }
    }

    /// The dark theme that is used when none is chosen.
    pub fn default() -> (t: Self)
        ensures
            t.name@ == "default"@,
            t.colors == dark_colors(),
            named_theme_styles("default"@) == Some(t.styles),
    {
        default_dark()
    }

    /// The built-in theme called `name`.
    pub fn by_name(name: &str) -> (t: Option<Theme>)
        ensures
            match named_theme_colors(name@) {
                Some(c) => t matches Some(x) && x.name@ == name@ && x.colors == c && named_theme_styles(name@)
                    == Some(x.styles),
                None => t is None,
            },
    {
        if same_text(name, "default") {
            Some(default_dark())
        } else if same_text(name, "catppuccin-mocha") {
            Some(catppuccin_mocha())
        } else if same_text(name, "dracula") {
            Some(dracula())
        } else if same_text(name, "nord") {
            Some(nord())
        } else {
            None
        }
    }

    /// The built-in theme called `name`, or an error naming it.
    pub fn from_name(name: &str) -> (r: Result<Theme>)
        ensures
            match named_theme_colors(name@) {
                Some(c) => r matches Ok(x) && x.name@ == name@ && x.colors == c && named_theme_styles(name@)
                    == Some(x.styles),
                None => r matches Err(SymphonyError::Theme(m)) && m@ == "Unknown theme: "@ + name@,
            },
    {
        match Theme::by_name(name) {
            Some(t) => Ok(t),
            None => {
                let mut m = String::from_str("Unknown theme: ");
                m.append(name);
                Err(SymphonyError::theme(m))
            },
        }
    }

    /// `customize`, after testing each override that the walk reaches: where
    /// one of them is a hex code that `parse_color` cannot read, nothing is
    /// applied and the result is `None`.
    pub fn customize_checked(self, overrides: Vec<(String, String)>) -> (r: Option<Result<Theme>>)
        ensures
            r is None <==> !overrides_readable(self.colors, pair_views(overrides@)),
            r matches Some(x) ==> match overridden(self.colors, pair_views(overrides@)) {
                Ok(c) => x matches Ok(t) && t.colors == c && t.name == self.name && t.styles == self.styles,
                Err(m) => x matches Err(SymphonyError::Theme(t)) && t@ == m,
            },
    {
        let ghost ov = pair_views(overrides@);
        let mut colors = self.colors;
        let n = overrides.len();
        let mut i: usize = 0;
        let mut stopped = false;
        while i < n
            invariant_except_break
                !stopped,
                overridden(self.colors, ov.take(i as int)) == Ok::<ThemeColors, Seq<char>>(colors),
            invariant
                n == overrides@.len(),
                i <= n,
                ov == pair_views(overrides@),
                forall|j: int|
                    0 <= j < i && #[trigger] overridden(self.colors, ov.take(j)) is Ok ==> color_text_readable(
                        ov[j].1,
                    ),
            ensures
                stopped ==> i < n && overridden(self.colors, ov.take(i as int + 1)) is Err && forall|j: int|
                    0 <= j <= i && #[trigger] overridden(self.colors, ov.take(j)) is Ok ==> color_text_readable(
                        ov[j].1,
                    ),
                !stopped ==> i == n,
            decreases n - i,
        {
            let (key, value) = (&overrides[i].0, &overrides[i].1);
            assert(ov.take(i as int + 1).drop_last() =~= ov.take(i as int));
            assert(ov.take(i as int + 1).last() == ov[i as int]);
            if !color_readable(value.as_str()) {
                proof {
                    lemma_first_unreadable(self.colors, ov, i as int);
                }
                return None;
            }
            match parse_color(value.as_str()) {
                Ok(c) => {
                    if !set_color(&mut colors, key.as_str(), c) {
                        stopped = true;
                        break;
                    }
                },
                Err(_) => {
                    stopped = true;
                    break;
                },
            }
            i = i + 1;
        }
        proof {
            assert forall|j: int|
                0 <= j < ov.len() && #[trigger] overridden(self.colors, ov.take(j)) is Ok implies color_text_readable(
                ov[j].1,
            ) by {
                if stopped && j > i {
                    assert(ov.take(j).take(i as int + 1) =~= ov.take(i as int + 1));
                    lemma_overridden_stops(self.colors, ov.take(j), i as int + 1);
                }
            }
        }
        Some(self.customize(overrides))
    }

    /// Replaces single colors, each given by its key and a color text.
    pub fn customize(self, overrides: Vec<(String, String)>) -> (r: Result<Theme>)
        requires
            overrides_readable(self.colors, pair_views(overrides@)),
        ensures
            match overridden(self.colors, pair_views(overrides@)) {
                Ok(c) => r matches Ok(t) && t.colors == c && t.name == self.name && t.styles
                    == self.styles,
                Err(m) => r matches Err(SymphonyError::Theme(t)) && t@ == m,
            },
    {
        let mut theme = self;
        let ghost start = theme.colors;
        let ghost ov = pair_views(overrides@);
        let n = overrides.len();
        let mut i: usize = 0;
        while i < n
            invariant
                n == overrides@.len(),
                i <= n,
                ov == pair_views(overrides@),
                start == self.colors,
                overrides_readable(start, ov),
                overridden(start, ov.take(i as int)) == Ok::<ThemeColors, Seq<char>>(theme.colors),
                theme.name == self.name,
                theme.styles == self.styles,
            decreases n - i,
        {
            let (key, value) = (&overrides[i].0, &overrides[i].1);
            assert(ov.take(i as int + 1).drop_last() =~= ov.take(i as int));
            assert(ov.take(i as int + 1).last() == ov[i as int]);
            assert(color_text_readable(ov[i as int].1));
            let color = match parse_color(value.as_str()) {
                Ok(c) => c,
                Err(e) => {
                    proof {
                        lemma_overridden_stops(start, ov, i as int + 1);
                    }
                    return Err(e);
                },
            };
            if !set_color(&mut theme.colors, key.as_str(), color) {
                let mut m = String::from_str("Unknown theme color key: ");
                m.append(key.as_str());
                proof {
                    lemma_overridden_stops(start, ov, i as int + 1);
                }
                return Err(SymphonyError::theme(m));
            }
            i = i + 1;
        }
        assert(ov.take(n as int) =~= ov);
        Ok(theme)
    }
}

} // verus!
