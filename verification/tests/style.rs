use screen_recording::style::{
    blend, blended_user_message_bg_target, fallback_user_message_bg_for,
    fallback_user_message_fg_for, fallback_user_message_style, indexed_color, is_light,
    proposed_plan_bg, proposed_plan_style, proposed_plan_style_for, rgb_color, user_message_bg,
    user_message_style, user_message_style_for, Color, ColorMatch, StdoutColorLevel, Style,
    Terminal, USER_MESSAGE_FALLBACK_BG_ANSI256_DARK, USER_MESSAGE_FALLBACK_BG_ANSI256_LIGHT,
    USER_MESSAGE_FALLBACK_BG_RGB, USER_MESSAGE_FALLBACK_FG_ANSI256, USER_MESSAGE_FALLBACK_FG_RGB,
};

fn fallback_user_message_style_for_test(color_level: StdoutColorLevel) -> Style {
    Style::default()
        .fg(fallback_user_message_fg_for(color_level))
        .bg(fallback_user_message_bg_for(color_level, None))
}

fn terminal(bg: Option<(u8, u8, u8)>, level: StdoutColorLevel, best: Color) -> Terminal {
    Terminal {
        default_bg: bg,
        color_level: level,
        best_color: ColorMatch {
            target: blended_user_message_bg_target(bg.unwrap_or((0, 0, 0))),
            color: best,
        },
    }
}

#[test]
fn dark_terminal_user_messages_get_stronger_gray_panel() {
    assert_eq!(blended_user_message_bg_target((0, 0, 0)), (56, 56, 56));
}

#[test]
fn light_terminal_user_messages_get_visible_gray_panel() {
    assert_eq!(
        blended_user_message_bg_target((255, 255, 255)),
        (234, 234, 234)
    );
}

#[test]
fn unknown_terminal_bg_uses_explicit_truecolor_fallback_panel() {
    let style = fallback_user_message_style_for_test(StdoutColorLevel::TrueColor);
    assert_eq!(style.fg, Some(rgb_color(USER_MESSAGE_FALLBACK_FG_RGB)));
    assert_eq!(style.bg, Some(rgb_color(USER_MESSAGE_FALLBACK_BG_RGB)));
}

#[test]
fn ansi256_fallback_uses_gray_indexes() {
    let style = fallback_user_message_style_for_test(StdoutColorLevel::Ansi256);
    assert_eq!(
        style.fg,
        Some(indexed_color(USER_MESSAGE_FALLBACK_FG_ANSI256))
    );
    assert_eq!(
        style.bg,
        Some(indexed_color(USER_MESSAGE_FALLBACK_BG_ANSI256_LIGHT))
    );
}

#[test]
fn ansi16_fallback_uses_named_colors() {
    let style = fallback_user_message_style_for_test(StdoutColorLevel::Ansi16);
    assert_eq!(style.fg, Some(Color::Black));
    assert_eq!(style.bg, Some(Color::Gray));
}

#[test]
fn blending_agrees_with_floating_point() {
    for channel in 0..=255u8 {
        for (top, alpha, share) in [(0u8, 8u32, 0.08f32), (255, 22, 0.22)] {
            let float = (top as f32 * share + channel as f32 * (1.0 - share)) as u8;
            assert_eq!(
                blend((top, top, top), (channel, channel, channel), alpha),
                (float, float, float)
            );
        }
    }
}

#[test]
fn lightness_agrees_with_floating_point() {
    for r in (0..=255u8).step_by(5) {
        for g in (0..=255u8).step_by(5) {
            for b in (0..=255u8).step_by(5) {
                let y = 0.299 * r as f32 + 0.587 * g as f32 + 0.114 * b as f32;
                assert_eq!(is_light((r, g, b)), y > 128.0);
            }
        }
    }
}

#[test]
fn panel_takes_the_terminals_own_colour() {
    let blue = terminal(Some((0, 0, 0)), StdoutColorLevel::Ansi16, Color::Blue);
    assert_eq!(user_message_bg((0, 0, 0), &blue), Color::Blue);
    assert_eq!(proposed_plan_bg((0, 0, 0), &blue), Color::Blue);
    assert_eq!(user_message_style(&blue).bg, Some(Color::Blue));
    assert_eq!(user_message_style(&blue).fg, None);
    assert_eq!(proposed_plan_style(&blue), user_message_style(&blue));
}

#[test]
fn panel_without_a_match_falls_back_by_brightness() {
    let light = (255, 255, 255);
    let dark = (0, 0, 0);
    for (bg, level, expected) in [
        (light, StdoutColorLevel::Ansi16, Color::Gray),
        (dark, StdoutColorLevel::Ansi16, Color::DarkGray),
        (light, StdoutColorLevel::Unknown, Color::Gray),
        (dark, StdoutColorLevel::Unknown, Color::DarkGray),
        (
            light,
            StdoutColorLevel::Ansi256,
            indexed_color(USER_MESSAGE_FALLBACK_BG_ANSI256_LIGHT),
        ),
        (
            dark,
            StdoutColorLevel::Ansi256,
            indexed_color(USER_MESSAGE_FALLBACK_BG_ANSI256_DARK),
        ),
    ] {
        let terminal = terminal(Some(bg), level, Color::Reset);
        assert_eq!(user_message_bg(bg, &terminal), expected);
        assert_eq!(
            user_message_style_for(Some(bg), &terminal),
            proposed_plan_style_for(Some(bg), &terminal)
        );
    }
}

#[test]
fn unknown_background_recolours_the_text() {
    let unknown = terminal(None, StdoutColorLevel::TrueColor, Color::Reset);
    let style = user_message_style(&unknown);
    assert_eq!(style, fallback_user_message_style(StdoutColorLevel::TrueColor));
    assert!(style.fg.is_some());
}

#[test]
fn panel_moves_away_from_the_background() {
    for channel in 0..=255u8 {
        let bg = (channel, channel, channel);
        let target = blended_user_message_bg_target(bg);
        if is_light(bg) {
            assert!(target.0 <= channel);
        } else {
            assert!(target.0 >= channel);
        }
    }
}
