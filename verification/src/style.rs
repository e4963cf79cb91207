//! Colours of the panels behind user messages and proposed plans.
use vstd::prelude::*;

verus! {

/// How much of the panel's colour is black on a light terminal, in percent.
pub const USER_MESSAGE_BG_ALPHA_LIGHT: u32 = 8;

/// How much of the panel's colour is white on a dark terminal, in percent.
pub const USER_MESSAGE_BG_ALPHA_DARK: u32 = 22;

pub const USER_MESSAGE_FALLBACK_BG_ANSI256_LIGHT: u8 = 252;

pub const USER_MESSAGE_FALLBACK_BG_ANSI256_DARK: u8 = 238;

pub const USER_MESSAGE_FALLBACK_FG_ANSI256: u8 = 16;

/// The panel behind a message where nothing is known of the background.
pub const USER_MESSAGE_FALLBACK_BG_RGB: (u8, u8, u8) = (224, 224, 224);

/// The text on that panel.
pub const USER_MESSAGE_FALLBACK_FG_RGB: (u8, u8, u8) = (24, 24, 24);

/// A terminal colour.
#[derive(Debug, Clone, Copy, PartialEq, Eq, Structural)]
pub enum Color {
    Reset,
    Black,
    Red,
    Green,
    Yellow,
    Blue,
    Magenta,
    Cyan,
    Gray,
    DarkGray,
    LightRed,
    LightGreen,
    LightYellow,
    LightBlue,
    LightMagenta,
    LightCyan,
    White,
    Rgb(u8, u8, u8),
    Indexed(u8),
}

/// How many colours standard output shows.
#[derive(Debug, Clone, Copy, PartialEq, Eq, Structural)]
pub enum StdoutColorLevel {
    TrueColor,
    Ansi256,
    Ansi16,
    Unknown,
}

/// The colours of a piece of text; `None` leaves a colour as it is.
#[derive(Debug, Clone, Copy, PartialEq, Eq)]
pub struct Style {
    pub fg: Option<Color>,
    pub bg: Option<Color>,
}

impl Default for Style {
    fn default() -> (style: Style)
        ensures
            style == (Style { fg: None, bg: None }),
    {
        Style { fg: None, bg: None }
    }
}

impl Style {
    pub fn fg(self, color: Color) -> (style: Style)
        ensures
            style == (Style { fg: Some(color), bg: self.bg }),
    {
        Style { fg: Some(color), bg: self.bg }
    }

    pub fn bg(self, color: Color) -> (style: Style)
        ensures
            style == (Style { fg: self.fg, bg: Some(color) }),
    {
        Style { fg: self.fg, bg: Some(color) }
    }
}

/// What is known of the terminal.
#[derive(Debug, Clone, Copy)]
pub struct Terminal {
    /// The default background, where the terminal told it.
    pub default_bg: Option<(u8, u8, u8)>,
    /// How many colours it shows.
    pub color_level: StdoutColorLevel,
    /// Its answer to the search for a panel's colour.
    pub best_color: ColorMatch,
}

/// A terminal's closest colour to a wanted one, or `Color::Reset` where it has none.
#[derive(Debug, Clone, Copy)]
pub struct ColorMatch {
    pub target: (u8, u8, u8),
    pub color: Color,
}

pub fn rgb_color(rgb: (u8, u8, u8)) -> (color: Color)
    ensures
        color == Color::Rgb(rgb.0, rgb.1, rgb.2),
{
    Color::Rgb(rgb.0, rgb.1, rgb.2)
}

pub fn indexed_color(index: u8) -> (color: Color)
    ensures
        color == Color::Indexed(index),
{
    Color::Indexed(index)
}

/// Whether a colour's brightness, as the eye weighs its channels, is above one half.
pub open spec fn light(rgb: (u8, u8, u8)) -> bool {
    299 * rgb.0 + 587 * rgb.1 + 114 * rgb.2 > 128_000
}

pub fn is_light(rgb: (u8, u8, u8)) -> (is: bool)
    ensures
        is == light(rgb),
{
    299 * rgb.0 as u32 + 587 * rgb.1 as u32 + 114 * rgb.2 as u32 > 128_000
}

/// `alpha` percent of `top` over the rest of `bottom`, rounded down.
pub open spec fn blended_channel(top: int, bottom: int, alpha: int) -> int {
    (top * alpha + bottom * (100 - alpha)) / 100
}

pub open spec fn blended(top: (u8, u8, u8), bottom: (u8, u8, u8), alpha: int) -> (u8, u8, u8) {
    (
        blended_channel(top.0 as int, bottom.0 as int, alpha) as u8,
        blended_channel(top.1 as int, bottom.1 as int, alpha) as u8,
        blended_channel(top.2 as int, bottom.2 as int, alpha) as u8,
    )
}

fn blend_channel(top: u8, bottom: u8, alpha: u32) -> (channel: u8)
    requires
        alpha <= 100,
    ensures
        channel == blended_channel(top as int, bottom as int, alpha as int),
{
    proof {
        assert(top * alpha <= 255 * alpha && bottom * (100 - alpha) <= 255 * (100 - alpha))
            by (nonlinear_arith)
            requires
                top <= 255,
                bottom <= 255,
                alpha <= 100,
        ;
        assert(0 <= top * alpha && 0 <= bottom * (100 - alpha)) by (nonlinear_arith)
            requires
                0 <= top,
                0 <= bottom,
                0 <= alpha <= 100,
        ;
    }
    ((top as u32 * alpha + bottom as u32 * (100 - alpha)) / 100) as u8
}

/// `alpha` percent of `top` over `bottom`.
pub fn blend(top: (u8, u8, u8), bottom: (u8, u8, u8), alpha: u32) -> (mixed: (u8, u8, u8))
    requires
        alpha <= 100,
    ensures
        mixed == blended(top, bottom, alpha as int),
{
    (
        blend_channel(top.0, bottom.0, alpha),
        blend_channel(top.1, bottom.1, alpha),
        blend_channel(top.2, bottom.2, alpha),
    )
}

/// The panel's colour: a light background a little darker, a dark one a little lighter.
pub open spec fn panel_target(terminal_bg: (u8, u8, u8)) -> (u8, u8, u8) {
    if light(terminal_bg) {
        blended((0, 0, 0), terminal_bg, USER_MESSAGE_BG_ALPHA_LIGHT as int)
    } else {
        blended((255, 255, 255), terminal_bg, USER_MESSAGE_BG_ALPHA_DARK as int)
    }
}

/// The colour that the panel behind a user message should have.
pub fn blended_user_message_bg_target(terminal_bg: (u8, u8, u8)) -> (target: (u8, u8, u8))
    ensures
        target == panel_target(terminal_bg),
{
    if is_light(terminal_bg) {
        blend((0, 0, 0), terminal_bg, USER_MESSAGE_BG_ALPHA_LIGHT)
    } else {
        blend((255, 255, 255), terminal_bg, USER_MESSAGE_BG_ALPHA_DARK)
    }
}

/// The text colour where nothing is known of the terminal's background.
pub open spec fn fallback_fg(color_level: StdoutColorLevel) -> Color {
    match color_level {
        StdoutColorLevel::TrueColor => Color::Rgb(
            USER_MESSAGE_FALLBACK_FG_RGB.0,
            USER_MESSAGE_FALLBACK_FG_RGB.1,
            USER_MESSAGE_FALLBACK_FG_RGB.2,
        ),
        StdoutColorLevel::Ansi256 => Color::Indexed(USER_MESSAGE_FALLBACK_FG_ANSI256),
        StdoutColorLevel::Ansi16 | StdoutColorLevel::Unknown => Color::Black,
    }
}

pub fn fallback_user_message_fg_for(color_level: StdoutColorLevel) -> (color: Color)
    ensures
        color == fallback_fg(color_level),
{
    match color_level {
        StdoutColorLevel::TrueColor => rgb_color(USER_MESSAGE_FALLBACK_FG_RGB),
        StdoutColorLevel::Ansi256 => indexed_color(USER_MESSAGE_FALLBACK_FG_ANSI256),
        StdoutColorLevel::Ansi16 | StdoutColorLevel::Unknown => Color::Black,
    }
}

/// The panel's colour where the terminal names no closest colour. A background of which
/// nothing is known counts as light.
pub open spec fn fallback_bg(
    color_level: StdoutColorLevel,
    terminal_bg: Option<(u8, u8, u8)>,
) -> Color {
    let on_light = terminal_bg is None || light(terminal_bg->0);
    match color_level {
        StdoutColorLevel::TrueColor => match terminal_bg {
            Some(bg) => {
                let target = panel_target(bg);
                Color::Rgb(target.0, target.1, target.2)
            },
            None => Color::Rgb(
                USER_MESSAGE_FALLBACK_BG_RGB.0,
                USER_MESSAGE_FALLBACK_BG_RGB.1,
                USER_MESSAGE_FALLBACK_BG_RGB.2,
            ),
        },
        StdoutColorLevel::Ansi256 => Color::Indexed(
            if on_light {
                USER_MESSAGE_FALLBACK_BG_ANSI256_LIGHT
            } else {
                USER_MESSAGE_FALLBACK_BG_ANSI256_DARK
            },
        ),
        StdoutColorLevel::Ansi16 | StdoutColorLevel::Unknown => if on_light {
            Color::Gray
        } else {
            Color::DarkGray
        },
    }
}

pub fn fallback_user_message_bg_for(
    color_level: StdoutColorLevel,
    terminal_bg: Option<(u8, u8, u8)>,
) -> (color: Color)
    ensures
        color == fallback_bg(color_level, terminal_bg),
{
    let is_light_terminal: bool = match terminal_bg {
        Some(bg) => is_light(bg),
        None => true,
    };
    match color_level {
        StdoutColorLevel::TrueColor => match terminal_bg {
            Some(bg) => rgb_color(blended_user_message_bg_target(bg)),
            None => rgb_color(USER_MESSAGE_FALLBACK_BG_RGB),
        },
        StdoutColorLevel::Ansi256 => indexed_color(
            if is_light_terminal {
                USER_MESSAGE_FALLBACK_BG_ANSI256_LIGHT
            } else {
                USER_MESSAGE_FALLBACK_BG_ANSI256_DARK
            },
        ),
        StdoutColorLevel::Ansi16 | StdoutColorLevel::Unknown => {
            if is_light_terminal {
                Color::Gray
            } else {
                Color::DarkGray
            }
        },
    }
}

/// Text and panel colours where nothing is known of the background.
pub open spec fn fallback_style(color_level: StdoutColorLevel) -> Style {
    Style { fg: Some(fallback_fg(color_level)), bg: Some(fallback_bg(color_level, None)) }
}

pub fn fallback_user_message_style(color_level: StdoutColorLevel) -> (style: Style)
    ensures
        style == fallback_style(color_level),
{
    Style::default().fg(fallback_user_message_fg_for(color_level)).bg(
        fallback_user_message_bg_for(color_level, None),
    )
}

/// The terminal's closest colour to the panel's, or the fallback where it has none.
pub open spec fn panel_color(terminal_bg: (u8, u8, u8), terminal: Terminal) -> Color {
    if terminal.best_color.color == Color::Reset {
        fallback_bg(terminal.color_level, Some(terminal_bg))
    } else {
        terminal.best_color.color
    }
}

/// The terminal was asked for the colour of a panel on the given background, where there is
/// one.
pub open spec fn was_matched(terminal_bg: Option<(u8, u8, u8)>, terminal: Terminal) -> bool {
    terminal_bg matches Some(bg) ==> terminal.best_color.target == panel_target(bg)
}

/// The colour of the panel behind a user message, on the given background.
pub fn user_message_bg(terminal_bg: (u8, u8, u8), terminal: &Terminal) -> (color: Color)
    requires
        was_matched(Some(terminal_bg), *terminal),
    ensures
        color == panel_color(terminal_bg, *terminal),
{
    if terminal.best_color.color == Color::Reset {
        fallback_user_message_bg_for(terminal.color_level, Some(terminal_bg))
    } else {
        terminal.best_color.color
    }
}

/// The colour of the panel behind a proposed plan, on the given background.
pub fn proposed_plan_bg(terminal_bg: (u8, u8, u8), terminal: &Terminal) -> (color: Color)
    requires
        was_matched(Some(terminal_bg), *terminal),
    ensures
        color == panel_color(terminal_bg, *terminal),
{
    user_message_bg(terminal_bg, terminal)
}

/// The style of a panel on the given background.
pub open spec fn panel_style(terminal_bg: Option<(u8, u8, u8)>, terminal: Terminal) -> Style {
    match terminal_bg {
        Some(bg) => Style { fg: None, bg: Some(panel_color(bg, terminal)) },
        None => fallback_style(terminal.color_level),
    }
}

/// The style of a user message on the given background.
pub fn user_message_style_for(terminal_bg: Option<(u8, u8, u8)>, terminal: &Terminal) -> (style:
    Style)
    requires
        was_matched(terminal_bg, *terminal),
    ensures
        style == panel_style(terminal_bg, *terminal),
{
    match terminal_bg {
        Some(bg) => Style::default().bg(user_message_bg(bg, terminal)),
        None => fallback_user_message_style(terminal.color_level),
    }
}

/// The style of a proposed plan on the given background.
pub fn proposed_plan_style_for(terminal_bg: Option<(u8, u8, u8)>, terminal: &Terminal) -> (style:
    Style)
    requires
        was_matched(terminal_bg, *terminal),
    ensures
        style == panel_style(terminal_bg, *terminal),
{
    match terminal_bg {
        Some(bg) => Style::default().bg(proposed_plan_bg(bg, terminal)),
        None => fallback_user_message_style(terminal.color_level),
    }
}

/// The style of a user message on the terminal's own background.
pub fn user_message_style(terminal: &Terminal) -> (style: Style)
    requires
        was_matched(terminal.default_bg, *terminal),
    ensures
        style == panel_style(terminal.default_bg, *terminal),
{
    user_message_style_for(terminal.default_bg, terminal)
}

/// The style of a proposed plan on the terminal's own background.
pub fn proposed_plan_style(terminal: &Terminal) -> (style: Style)
    requires
        was_matched(terminal.default_bg, *terminal),
    ensures
        style == panel_style(terminal.default_bg, *terminal),
{
    proposed_plan_style_for(terminal.default_bg, terminal)
}

// ---------------------------------------------------------------------------------------
// Laws
// ---------------------------------------------------------------------------------------

/// On a light terminal no channel of the panel is lighter than the background, and on a dark
/// one none is darker.
pub proof fn panel_contrasts_with_background(bg: (u8, u8, u8))
    ensures
        light(bg) ==> panel_target(bg).0 <= bg.0 && panel_target(bg).1 <= bg.1 && panel_target(bg).2
            <= bg.2,
        !light(bg) ==> panel_target(bg).0 >= bg.0 && panel_target(bg).1 >= bg.1 && panel_target(
            bg,
        ).2 >= bg.2,
{
    lemma_channel_contrast(bg.0);
    lemma_channel_contrast(bg.1);
    lemma_channel_contrast(bg.2);
}

proof fn lemma_channel_contrast(bottom: u8)
    ensures
        0 <= blended_channel(0, bottom as int, USER_MESSAGE_BG_ALPHA_LIGHT as int) <= bottom,
        bottom <= blended_channel(255, bottom as int, USER_MESSAGE_BG_ALPHA_DARK as int) <= 255,
{
}

/// A panel always has a colour of its own.
pub proof fn panel_is_never_reset(terminal_bg: Option<(u8, u8, u8)>, terminal: Terminal)
    ensures
        panel_style(terminal_bg, terminal).bg matches Some(color) && color != Color::Reset,
{
}

/// Text is recoloured only where nothing is known of the background.
pub proof fn text_is_recolored_only_without_background(
    terminal_bg: Option<(u8, u8, u8)>,
    terminal: Terminal,
)
    ensures
        panel_style(terminal_bg, terminal).fg is Some <==> terminal_bg is None,
{
}

/// Mixing gives the colour below at nothing of the one on top, the one on top at all of it, and
/// a colour between the two at anything between.
pub proof fn mixture_lies_between(top: u8, bottom: u8, alpha: int)
    requires
        0 <= alpha <= 100,
    ensures
        blended_channel(top as int, bottom as int, 0) == bottom,
        blended_channel(top as int, bottom as int, 100) == top,
        top <= bottom ==> top <= blended_channel(top as int, bottom as int, alpha) <= bottom,
        bottom <= top ==> bottom <= blended_channel(top as int, bottom as int, alpha) <= top,
{
    assert(top <= bottom ==> 100 * top <= top * alpha + bottom * (100 - alpha) <= 100 * bottom)
        by (nonlinear_arith)
        requires
            0 <= alpha <= 100,
    ;
    assert(bottom <= top ==> 100 * bottom <= top * alpha + bottom * (100 - alpha) <= 100 * top)
        by (nonlinear_arith)
        requires
            0 <= alpha <= 100,
    ;
}

/// A grey is light exactly above the middle of the scale, and a colour that is light stays so
/// where a channel grows. Green weighs more than red, and red more than blue.
pub proof fn brightness_grows_with_each_channel(a: (u8, u8, u8), b: (u8, u8, u8), grey: u8)
    ensures
        light((grey, grey, grey)) <==> grey > 128,
        light(a) && a.0 <= b.0 && a.1 <= b.1 && a.2 <= b.2 ==> light(b),
        light((a.0, a.1, a.2)) && a.0 >= a.1 ==> light((a.1, a.0, a.2)),
        light((a.0, a.1, a.2)) && a.2 >= a.0 ==> light((a.2, a.1, a.0)),
{
}

/// The panel keeps 92 percent of a light background, and 78 percent of a dark one with white for
/// the rest.
pub proof fn panel_is_a_shade_of_the_background(bg: (u8, u8, u8))
    ensures
        light(bg) ==> {
            &&& panel_target(bg).0 == bg.0 * 92 / 100
            &&& panel_target(bg).1 == bg.1 * 92 / 100
            &&& panel_target(bg).2 == bg.2 * 92 / 100
        },
        !light(bg) ==> {
            &&& panel_target(bg).0 == (255 * 22 + bg.0 * 78) / 100
            &&& panel_target(bg).1 == (255 * 22 + bg.1 * 78) / 100
            &&& panel_target(bg).2 == (255 * 22 + bg.2 * 78) / 100
        },
{
}

/// The panel has the terminal's own closest colour wherever it has one; else the wanted colour
/// itself where it can be shown, and a grey that fits the background where it cannot.
pub proof fn panel_has_the_closest_color(bg: (u8, u8, u8), terminal: Terminal)
    ensures
        terminal.best_color.color != Color::Reset ==> panel_color(bg, terminal)
            == terminal.best_color.color,
        terminal.best_color.color == Color::Reset ==> match terminal.color_level {
            StdoutColorLevel::TrueColor => panel_color(bg, terminal) == Color::Rgb(
                panel_target(bg).0,
                panel_target(bg).1,
                panel_target(bg).2,
            ),
            StdoutColorLevel::Ansi256 => panel_color(bg, terminal) == Color::Indexed(
                if light(bg) {
                    252
                } else {
                    238
                },
            ),
            _ => panel_color(bg, terminal) == (if light(bg) {
                Color::Gray
            } else {
                Color::DarkGray
            }),
        },
{
}

/// Where nothing is known of the background, the panel is light and its text dark, as far as the
/// terminal's colours allow; where it is known, the text is left alone.
pub proof fn unknown_background_gets_dark_text_on_light(
    terminal_bg: Option<(u8, u8, u8)>,
    terminal: Terminal,
)
    ensures
        ({
            let style = panel_style(terminal_bg, terminal);
            &&& terminal_bg matches Some(bg) ==> style.fg is None && style.bg == Some(
                panel_color(bg, terminal),
            )
            &&& terminal_bg is None ==> match terminal.color_level {
                StdoutColorLevel::TrueColor => style.fg == Some(Color::Rgb(24, 24, 24)) && style.bg
                    == Some(Color::Rgb(224, 224, 224)),
                StdoutColorLevel::Ansi256 => style.fg == Some(Color::Indexed(16)) && style.bg
                    == Some(Color::Indexed(252)),
                _ => style.fg == Some(Color::Black) && style.bg == Some(Color::Gray),
            }
        }),
{
}

/// What is said of a terminal's fallback colours holds of each on its own.
pub proof fn fallback_colors(level: StdoutColorLevel, bg: Option<(u8, u8, u8)>)
    ensures
        level == StdoutColorLevel::TrueColor ==> {
            &&& fallback_fg(level) == Color::Rgb(24, 24, 24)
            &&& bg is None ==> fallback_bg(level, bg) == Color::Rgb(224, 224, 224)
            &&& bg matches Some(bg) ==> fallback_bg(level, Some(bg)) == Color::Rgb(
                panel_target(bg).0,
                panel_target(bg).1,
                panel_target(bg).2,
            )
        },
        level == StdoutColorLevel::Ansi256 ==> {
            &&& fallback_fg(level) == Color::Indexed(16)
            &&& bg is None || light(bg->0) ==> fallback_bg(level, bg) == Color::Indexed(252)
            &&& bg is Some && !light(bg->0) ==> fallback_bg(level, bg) == Color::Indexed(238)
        },
        level == StdoutColorLevel::Ansi16 || level == StdoutColorLevel::Unknown ==> {
            &&& fallback_fg(level) == Color::Black
            &&& bg is None || light(bg->0) ==> fallback_bg(level, bg) == Color::Gray
            &&& bg is Some && !light(bg->0) ==> fallback_bg(level, bg) == Color::DarkGray
        },
        fallback_style(level) == (Style {
            fg: Some(fallback_fg(level)),
            bg: Some(fallback_bg(level, None)),
        }),
{
}

/// A colour is light where its weighed channels, a thousand parts in all, come to more than 128
/// on the average.
pub proof fn channels_are_weighed(rgb: (u8, u8, u8))
    ensures
        light(rgb) <==> 299 * rgb.0 + 587 * rgb.1 + 114 * rgb.2 > 128 * 1000,
{
}

/// Each channel is mixed on its own, from the same channel of both colours, and rounded down.
pub proof fn channels_are_mixed_apart(top: (u8, u8, u8), bottom: (u8, u8, u8), alpha: int)
    requires
        0 <= alpha <= 100,
    ensures
        ({
            let mixed = blended(top, bottom, alpha);
            &&& 100 * mixed.0 <= top.0 * alpha + bottom.0 * (100 - alpha) < 100 * mixed.0 + 100
            &&& 100 * mixed.1 <= top.1 * alpha + bottom.1 * (100 - alpha) < 100 * mixed.1 + 100
            &&& 100 * mixed.2 <= top.2 * alpha + bottom.2 * (100 - alpha) < 100 * mixed.2 + 100
        }),
{
    mixture_lies_between(top.0, bottom.0, alpha);
    mixture_lies_between(top.1, bottom.1, alpha);
    mixture_lies_between(top.2, bottom.2, alpha);
}

} // verus!
