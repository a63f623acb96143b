use julia_screensaver::colors::{cell_style, color_gradient, get_color, render_style, CellStyle,
    ColorScheme, Glyph, Paint, Tone};

#[test]
fn palettes_cycle_in_order() {
    assert_eq!(ColorScheme::Rainbow.next(), ColorScheme::Blues);
    assert_eq!(ColorScheme::Blues.next(), ColorScheme::Greens);
    assert_eq!(ColorScheme::Greens.next(), ColorScheme::Purples);
    assert_eq!(ColorScheme::Purples.next(), ColorScheme::Grays);
    assert_eq!(ColorScheme::Grays.next(), ColorScheme::Rainbow);
}

#[test]
fn five_steps_close_the_cycle() {
    for s in [
        ColorScheme::Rainbow,
        ColorScheme::Blues,
        ColorScheme::Greens,
        ColorScheme::Purples,
        ColorScheme::Grays,
    ] {
        assert_eq!(s.next().next().next().next().next(), s);
        assert_ne!(s.next(), s);
        assert_ne!(s.next().next(), s);
    }
}

#[test]
fn glyph_texts() {
    assert_eq!(Glyph::Full.text(), "\u{2588}");
    assert_eq!(Glyph::Dark.text(), "\u{2593}");
    assert_eq!(Glyph::Medium.text(), "\u{2592}");
    assert_eq!(Glyph::Light.text(), "\u{2591}");
    assert_eq!(Glyph::Blank.text(), " ");
}

#[test]
fn tone_names() {
    assert_eq!(Tone::Black.name(), "black");
    assert_eq!(Tone::Magenta.name(), "magenta");
    assert_eq!(Tone::BrightBlack.name(), "bright black");
    assert_eq!(Tone::BrightWhite.name(), "bright white");
}

#[test]
fn interior_is_blank_on_black_in_every_palette() {
    for s in [
        ColorScheme::Rainbow,
        ColorScheme::Blues,
        ColorScheme::Greens,
        ColorScheme::Purples,
        ColorScheme::Grays,
    ] {
        assert_eq!(
            cell_style(100, s),
            CellStyle { glyph: Glyph::Blank, paint: Paint::Back(Tone::Black) }
        );
    }
}

#[test]
fn glyph_goes_by_the_count_modulo_four() {
    assert_eq!(cell_style(0, ColorScheme::Rainbow).glyph, Glyph::Full);
    assert_eq!(cell_style(1, ColorScheme::Blues).glyph, Glyph::Dark);
    assert_eq!(cell_style(2, ColorScheme::Greens).glyph, Glyph::Medium);
    assert_eq!(cell_style(3, ColorScheme::Grays).glyph, Glyph::Light);
    assert_eq!(cell_style(96, ColorScheme::Purples).glyph, Glyph::Full);
    assert_eq!(cell_style(99, ColorScheme::Rainbow).glyph, Glyph::Light);
}

#[test]
fn rainbow_table() {
    let expected = [
        Tone::Black,
        Tone::Blue,
        Tone::Cyan,
        Tone::Green,
        Tone::Magenta,
        Tone::Magenta,
        Tone::Red,
        Tone::Yellow,
        Tone::Blue,
        Tone::Cyan,
        Tone::Green,
        Tone::Magenta,
        Tone::Blue,
        Tone::Cyan,
        Tone::Blue,
        Tone::Cyan,
    ];
    for n in 0..100u32 {
        assert_eq!(
            cell_style(n, ColorScheme::Rainbow).paint,
            Paint::Fore(expected[(n % 16) as usize])
        );
    }
}

#[test]
fn blue_gradient_thresholds() {
    let s = ColorScheme::Blues;
    assert_eq!(cell_style(0, s).paint, Paint::Both(Tone::Black, Tone::Black));
    assert_eq!(cell_style(1, s).paint, Paint::Both(Tone::Black, Tone::Black));
    assert_eq!(cell_style(2, s).paint, Paint::Both(Tone::BrightBlack, Tone::BrightBlack));
    assert_eq!(cell_style(3, s).paint, Paint::Fore(Tone::Blue));
    assert_eq!(cell_style(4, s).paint, Paint::Fore(Tone::Blue));
    assert_eq!(cell_style(5, s).paint, Paint::Fore(Tone::BrightBlue));
    assert_eq!(cell_style(6, s).paint, Paint::Fore(Tone::BrightBlue));
    assert_eq!(cell_style(7, s).paint, Paint::Both(Tone::White, Tone::Blue));
    assert_eq!(cell_style(8, s).paint, Paint::Both(Tone::White, Tone::Blue));
    assert_eq!(cell_style(9, s).paint, Paint::Both(Tone::BrightWhite, Tone::BrightBlue));
    assert_eq!(cell_style(99, s).paint, Paint::Both(Tone::BrightWhite, Tone::BrightBlue));
}

#[test]
fn green_and_purple_gradients() {
    assert_eq!(cell_style(3, ColorScheme::Greens).paint, Paint::Fore(Tone::Green));
    assert_eq!(cell_style(5, ColorScheme::Greens).paint, Paint::Fore(Tone::BrightGreen));
    assert_eq!(cell_style(7, ColorScheme::Greens).paint, Paint::Both(Tone::White, Tone::Green));
    assert_eq!(
        cell_style(50, ColorScheme::Greens).paint,
        Paint::Both(Tone::BrightWhite, Tone::BrightGreen)
    );
    assert_eq!(cell_style(4, ColorScheme::Purples).paint, Paint::Fore(Tone::Magenta));
    assert_eq!(cell_style(6, ColorScheme::Purples).paint, Paint::Fore(Tone::BrightMagenta));
    assert_eq!(cell_style(8, ColorScheme::Purples).paint, Paint::Both(Tone::White, Tone::Magenta));
    assert_eq!(
        cell_style(2, ColorScheme::Purples).paint,
        Paint::Both(Tone::BrightBlack, Tone::BrightBlack)
    );
}

#[test]
fn gray_gradient_thresholds() {
    let s = ColorScheme::Grays;
    assert_eq!(cell_style(1, s).paint, Paint::Both(Tone::Black, Tone::Black));
    assert_eq!(cell_style(2, s).paint, Paint::Both(Tone::Black, Tone::BrightBlack));
    assert_eq!(cell_style(3, s).paint, Paint::Fore(Tone::BrightBlack));
    assert_eq!(cell_style(5, s).paint, Paint::Fore(Tone::White));
    assert_eq!(cell_style(7, s).paint, Paint::Fore(Tone::BrightWhite));
    assert_eq!(cell_style(9, s).paint, Paint::Both(Tone::BrightWhite, Tone::White));
}

#[test]
fn gradient_keeps_the_glyph_it_is_given() {
    for g in [Glyph::Full, Glyph::Dark, Glyph::Medium, Glyph::Light, Glyph::Blank] {
        assert_eq!(color_gradient(5, g, ColorScheme::Blues).glyph, g);
    }
}

#[test]
fn gradient_of_the_rainbow_is_gray() {
    for n in 0..12u32 {
        assert_eq!(
            color_gradient(n, Glyph::Full, ColorScheme::Rainbow),
            color_gradient(n, Glyph::Full, ColorScheme::Grays)
        );
    }
}

#[test]
fn coloured_text_of_chosen_cells() {
    colored::control::set_override(true);
    assert_eq!(get_color(100, ColorScheme::Rainbow), "\u{1b}[40m \u{1b}[0m");
    assert_eq!(get_color(0, ColorScheme::Rainbow), "\u{1b}[30m\u{2588}\u{1b}[0m");
    assert_eq!(get_color(21, ColorScheme::Rainbow), "\u{1b}[35m\u{2593}\u{1b}[0m");
    assert_eq!(get_color(9, ColorScheme::Blues), "\u{1b}[104;97m\u{2593}\u{1b}[0m");
    assert_eq!(get_color(5, ColorScheme::Purples), "\u{1b}[95m\u{2593}\u{1b}[0m");
    assert_eq!(get_color(2, ColorScheme::Grays), "\u{1b}[100;30m\u{2592}\u{1b}[0m");
    assert_eq!(get_color(7, ColorScheme::Greens), "\u{1b}[42;37m\u{2591}\u{1b}[0m");
}

#[test]
fn coloured_text_of_each_kind_of_paint() {
    colored::control::set_override(true);
    let fore = CellStyle { glyph: Glyph::Full, paint: Paint::Fore(Tone::Yellow) };
    let back = CellStyle { glyph: Glyph::Blank, paint: Paint::Back(Tone::Red) };
    let both = CellStyle { glyph: Glyph::Light, paint: Paint::Both(Tone::Cyan, Tone::BrightGreen) };
    assert_eq!(render_style(fore), "\u{1b}[33m\u{2588}\u{1b}[0m");
    assert_eq!(render_style(back), "\u{1b}[41m \u{1b}[0m");
    assert_eq!(render_style(both), "\u{1b}[102;36m\u{2591}\u{1b}[0m");
}

#[test]
fn every_tone_has_its_own_code() {
    colored::control::set_override(true);
    let tones = [
        (Tone::Black, "30"),
        (Tone::Red, "31"),
        (Tone::Green, "32"),
        (Tone::Yellow, "33"),
        (Tone::Blue, "34"),
        (Tone::Magenta, "35"),
        (Tone::Cyan, "36"),
        (Tone::White, "37"),
        (Tone::BrightBlack, "90"),
        (Tone::BrightGreen, "92"),
        (Tone::BrightBlue, "94"),
        (Tone::BrightMagenta, "95"),
        (Tone::BrightWhite, "97"),
    ];
    for (tone, code) in tones {
        let style = CellStyle { glyph: Glyph::Dark, paint: Paint::Fore(tone) };
        assert_eq!(render_style(style), format!("\u{1b}[{}m\u{2593}\u{1b}[0m", code));
    }
}
