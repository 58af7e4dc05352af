//! Strings, labels and icons.

use std::path::PathBuf;
use tiny_dfr::button::IconRequest;
use tiny_dfr::config::Theme;
use tiny_dfr::icons::{
    extend_path, fits_icon, icon_format, icon_load_plan, icon_loader_roots, icon_name_candidates,
    icon_search_paths, resolve_icon_path, theme_icon_subdirs, uses_theme, IconFormat, IconSource,
    ICON_SIZE,
};
use tiny_dfr::text::{
    contains, decimal_string, ends_with, eq_ignore_ascii_case, is_white_space, parse_number,
    split_words, starts_with, trim,
};
use tiny_dfr::text_render::{
    collect_runs, emoji_font_patterns, grapheme_needs_emoji_font, is_emoji_codepoint, text_runs,
};
use tiny_dfr::time_label::{assemble_label, time_label, TimeFields};

#[test]
fn white_space_is_that_of_unicode() {
    for code in 0..0x11_0000u32 {
        if let Some(c) = char::from_u32(code) {
            assert_eq!(is_white_space(c), c.is_whitespace(), "{:x}", code);
        }
    }
}

#[test]
fn text_is_trimmed_split_and_searched() {
    for s in ["", "  ", " a b\u{2003}c\n", "abc", "\u{a0}x\u{85}", "ä ö", "layer\t2 "] {
        assert_eq!(trim(s), s.trim());
        let words: Vec<String> = s.split_whitespace().map(|w| w.to_string()).collect();
        assert_eq!(split_words(s), words);
        for t in ["", "a", "b c", "ö", "abc", "2"] {
            assert_eq!(contains(s, t), s.contains(t));
            assert_eq!(starts_with(s, t), s.starts_with(t));
            assert_eq!(ends_with(s, t), s.ends_with(t));
        }
    }
    assert!(eq_ignore_ascii_case("CRTC_id", "crtc_ID"));
    assert!(!eq_ignore_ascii_case("crtc", "crtc_"));
    assert!(!eq_ignore_ascii_case("Ä", "ä"));
}

#[test]
fn numbers_are_parsed_as_the_standard_library_does() {
    for s in [
        "", "0", "7", "007", "+5", "+", "-1", "4294967295", "4294967296", "1a", " 1", "1 ", "++1",
        "99999999999999999999",
    ] {
        assert_eq!(parse_number(s, u32::MAX as u64), s.parse::<u32>().ok().map(u64::from), "{}", s);
        assert_eq!(parse_number(s, u64::MAX), s.parse::<u64>().ok(), "{}", s);
    }
}

#[test]
fn numbers_are_written_and_read_back() {
    for n in [0u64, 1, 9, 10, 99, 509, 65_535, u32::MAX as u64, u64::MAX] {
        assert_eq!(decimal_string(n), format!("{}", n));
        assert_eq!(parse_number(&decimal_string(n), u64::MAX), Some(n));
    }
}

#[test]
fn icon_names_have_six_candidates() {
    assert_eq!(
        icon_name_candidates("mute"),
        vec![
            "mute",
            "mute.svg",
            "mute.png",
            "mute-symbolic",
            "mute-symbolic.svg",
            "mute-symbolic.png"
        ]
    );
    assert_eq!(
        icon_name_candidates("mute-symbolic"),
        vec!["mute-symbolic", "mute-symbolic.svg", "mute-symbolic.png"]
    );
    assert_eq!(
        icon_name_candidates("a.svg"),
        vec!["a.svg", "a.svg.png", "a.svg-symbolic", "a.svg-symbolic.svg", "a.svg-symbolic.png"]
    );
}

#[test]
fn theme_directories_are_listed() {
    let dirs = theme_icon_subdirs("Yaru");
    assert_eq!(dirs.len(), 9);
    assert!(dirs[0].is_empty());
    assert_eq!(dirs[1], vec!["Yaru"]);
    assert_eq!(dirs[2], vec!["Yaru", "symbolic"]);
    assert_eq!(dirs[3], vec!["Yaru", "symbolic", "status"]);
    assert_eq!(dirs[8], vec!["hicolor", "symbolic", "apps"]);
}

#[test]
fn paths_are_extended_as_the_standard_library_does() {
    for path in ["", "/usr", "/usr/", "usr", "/"] {
        for part in ["", "a", "a/b", "/etc", "a/"] {
            let mut expected = PathBuf::from(path);
            expected.push(part);
            assert_eq!(extend_path(path, part), expected.to_str().unwrap());
        }
    }
}

#[test]
fn icons_are_found_in_order() {
    let paths = icon_search_paths("mute", "Yaru");
    assert_eq!(paths.len(), 6 * 4 * 9);
    assert_eq!(paths[0], "/etc/tiny-dfr/icons/mute");
    assert_eq!(paths[1], "/etc/tiny-dfr/icons/Yaru/mute");
    assert_eq!(paths[9], "/usr/share/tiny-dfr/icons/mute");
    assert_eq!(paths[36], "/etc/tiny-dfr/icons/mute.svg");
    let found = resolve_icon_path("mute", "Yaru", |p: &String| p.ends_with("apps/mute.png"));
    assert_eq!(found, Some("/etc/tiny-dfr/icons/Yaru/symbolic/apps/mute.png".to_string()));
    assert_eq!(resolve_icon_path("mute", "Yaru", |_: &String| false), None);
    assert_eq!(
        icon_loader_roots(),
        vec!["/etc/tiny-dfr/icons", "/usr/share/tiny-dfr/icons/", "/usr/share/icons/"]
    );
}

#[test]
fn icon_files_are_told_by_their_ending() {
    assert_eq!(icon_format("/a/b.svg"), Some(IconFormat::Svg));
    assert_eq!(icon_format("/a/b.png"), Some(IconFormat::Png));
    assert_eq!(icon_format("/a/b.xpm"), None);
    assert_eq!(icon_format("/a/b.SVG"), None);
    assert!(fits_icon(ICON_SIZE, ICON_SIZE));
    assert!(!fits_icon(ICON_SIZE, 47));
}

fn themes() -> Option<Theme> {
    Some(Theme { media_icon_theme: "media".to_string(), app_icon_theme: "apps".to_string() })
}

fn source_text(s: &IconSource) -> String {
    match s {
        IconSource::ThemeLoader(t) => format!("loader {}", t),
        IconSource::ThemeFiles(t) => format!("files {}", t),
        IconSource::SvgFile(p) => format!("svg {}", p),
        IconSource::PngFile(p, q) => format!("png {} {}", p, q),
    }
}

#[test]
fn icons_come_from_the_theme_of_their_mode() {
    let app = IconRequest {
        name: "x".to_string(),
        path: "use_default".to_string(),
        mode: Some("App".to_string()),
    };
    assert!(uses_theme(&app));
    let plan: Vec<String> = icon_load_plan(&app, &themes()).iter().map(source_text).collect();
    assert_eq!(
        plan,
        vec![
            "loader apps",
            "files apps",
            "svg use_default",
            "svg /usr/share/pixmaps/x.svg",
            "png use_default /usr/share/pixmaps/x.png"
        ]
    );
    let media = IconRequest {
        name: "x".to_string(),
        path: "use_default".to_string(),
        mode: Some("app".to_string()),
    };
    assert_eq!(source_text(&icon_load_plan(&media, &themes())[0]), "loader media");
}

#[test]
fn icons_with_a_path_skip_the_theme() {
    let own = IconRequest { name: "x".to_string(), path: "/p/x.svg".to_string(), mode: None };
    assert!(!uses_theme(&own));
    let plan: Vec<String> = icon_load_plan(&own, &None).iter().map(source_text).collect();
    assert_eq!(
        plan,
        vec![
            "svg /p/x.svg",
            "svg /usr/share/pixmaps/x.svg",
            "png /p/x.svg /usr/share/pixmaps/x.png"
        ]
    );
}

#[test]
fn emoji_are_told_by_their_code() {
    for c in ['\u{a9}', '\u{ae}', '\u{203c}', '\u{231a}', '\u{2600}', '\u{27bf}', '\u{2b50}',
        '\u{3030}', '\u{fe0f}', '\u{1f1e6}', '\u{1f600}', '\u{10000}', '\u{10ffff}']
    {
        assert!(is_emoji_codepoint(c), "{}", c);
    }
    for c in ['a', 'Z', '0', ' ', 'é', '\u{aa}', '\u{25ff}', '\u{27c0}', '\u{2b51}', '\u{ffff}',
        '\u{fe0e}', '\u{200d}']
    {
        assert!(!is_emoji_codepoint(c), "{}", c);
    }
    assert!(grapheme_needs_emoji_font("a\u{fe0f}"));
    assert!(!grapheme_needs_emoji_font("e\u{301}"));
}

#[test]
fn labels_are_split_into_runs() {
    assert_eq!(text_runs(""), vec![]);
    assert_eq!(text_runs("esc"), vec![(false, "esc".to_string())]);
    assert_eq!(
        text_runs("a\u{1f600}\u{1f601}b c"),
        vec![
            (false, "a".to_string()),
            (true, "\u{1f600}\u{1f601}".to_string()),
            (false, "b c".to_string())
        ]
    );
    // A family and a flag are single graphemes, joiner and all.
    let family = "\u{1f468}\u{200d}\u{1f469}\u{200d}\u{1f467}";
    let flag = "\u{1f1e9}\u{1f1ea}";
    let label = format!("x{}{}", family, flag);
    assert_eq!(
        text_runs(&label),
        vec![(false, "x".to_string()), (true, format!("{}{}", family, flag))]
    );
}

#[test]
fn runs_put_together_are_the_label() {
    for label in ["", "a", "\u{1f600}", "a\u{1f600}b", "e\u{301}\u{2764}\u{fe0f}!", "\r\n x"] {
        let runs = text_runs(label);
        let joined: String = runs.iter().map(|r| r.1.clone()).collect();
        assert_eq!(joined, label);
        for pair in runs.windows(2) {
            assert_ne!(pair[0].0, pair[1].0);
        }
    }
}

#[test]
fn clusters_of_one_kind_make_one_run() {
    let clusters: Vec<String> =
        ["a", "b", "\u{1f600}", "c"].iter().map(|s| s.to_string()).collect();
    assert_eq!(
        collect_runs(&clusters),
        vec![
            (false, "ab".to_string()),
            (true, "\u{1f600}".to_string()),
            (false, "c".to_string())
        ]
    );
}

#[test]
fn emoji_fonts_are_tried_in_order() {
    assert_eq!(
        emoji_font_patterns(&None),
        vec!["emoji", ":family=Apple Color Emoji", ":family=Noto Color Emoji"]
    );
    assert_eq!(emoji_font_patterns(&Some("  ".to_string())).len(), 3);
    assert_eq!(emoji_font_patterns(&Some(" Mine ".to_string()))[0], "Mine");
}

#[test]
fn clock_labels_are_assembled() {
    let fields = TimeFields {
        hour24: "16".to_string(),
        hour12: "4".to_string(),
        minute: "05".to_string(),
        half: "PM".to_string(),
        weekday: "Fri".to_string(),
        day: "1".to_string(),
        month: "Mar".to_string(),
    };
    assert_eq!(assemble_label("24hr", &fields), "16:05    Fri 1 Mar");
    assert_eq!(assemble_label("12hr", &fields), "4:05 PM    Fri 1 Mar");
}

#[test]
fn clocks_show_the_local_time() {
    // The first of March 2024, 15:04:05 UTC.
    let secs = 1_709_305_445;
    assert_eq!(time_label("24hr", "POSIX", secs, 0), Some("15:04    Fri 1 Mar".to_string()));
    assert_eq!(time_label("12hr", "POSIX", secs, 0), Some("3:04 PM    Fri 1 Mar".to_string()));
    assert_eq!(time_label("24hr", "POSIX", secs, 3600), Some("16:04    Fri 1 Mar".to_string()));
    assert_eq!(
        time_label("24hr", "POSIX", secs, 9 * 3600),
        Some("00:04    Sat 2 Mar".to_string())
    );
    assert_eq!(
        time_label("12hr", "POSIX", secs, 9 * 3600),
        Some("12:04 AM    Sat 2 Mar".to_string())
    );
    assert_eq!(
        time_label("24hr", "POSIX", secs, -16 * 3600),
        Some("23:04    Thu 29 Feb".to_string())
    );
}

#[test]
fn clocks_speak_the_language_of_their_locale() {
    let secs = 1_709_305_445;
    assert_eq!(time_label("24hr", "de_DE", secs, 0), Some("15:04    Fr 1 Mär".to_string()));
    assert_eq!(time_label("24hr", "xx_XX", secs, 0), time_label("24hr", "POSIX", secs, 0));
}

#[test]
fn clocks_have_a_label_as_far_as_dates_reach() {
    let first = -8_334_601_228_800;
    let last = 8_210_266_876_799;
    for format in ["24hr", "12hr"] {
        for locale in ["POSIX", "de_DE", "xx_XX"] {
            for offset in [-86_399, -1, 0, 1, 86_399] {
                assert!(time_label(format, locale, first, offset).is_some());
                assert!(time_label(format, locale, last, offset).is_some());
                assert_eq!(time_label(format, locale, first - 1, offset), None);
                assert_eq!(time_label(format, locale, last + 1, offset), None);
            }
            assert_eq!(time_label(format, locale, 0, 86_400), None);
            assert_eq!(time_label(format, locale, 0, -86_400), None);
            assert_eq!(time_label(format, locale, i64::MIN, 0), None);
            assert_eq!(time_label(format, locale, i64::MAX, 0), None);
        }
    }
    assert!(time_label("24hr", "POSIX", first, -1).unwrap().starts_with("23:59    "));
    assert!(time_label("24hr", "POSIX", first, 0).unwrap().starts_with("00:00    "));
    assert!(time_label("24hr", "POSIX", last, 1).unwrap().starts_with("00:00    "));
    // A minute before 1970.
    assert_eq!(time_label("24hr", "POSIX", -60, 0), Some("23:59    Wed 31 Dec".to_string()));
    // The first of January 10000.
    assert_eq!(
        time_label("12hr", "POSIX", 253_402_300_800, 0),
        Some("12:00 AM    Sat 1 Jan".to_string())
    );
}

#[test]
fn emoji_are_exactly_the_listed_ones() {
    let single: Vec<u32> = vec![
        0x00A9, 0x00AE, 0x203C, 0x2049, 0x2122, 0x2139, 0x2194, 0x2195, 0x2196, 0x2197, 0x2198,
        0x2199, 0x21A9, 0x21AA, 0x231A, 0x231B, 0x2328, 0x23CF, 0x23E9, 0x23EA, 0x23EB, 0x23EC,
        0x23ED, 0x23EE, 0x23EF, 0x23F0, 0x23F1, 0x23F2, 0x23F3, 0x23F8, 0x23F9, 0x23FA, 0x24C2,
        0x25AA, 0x25AB, 0x25B6, 0x25C0, 0x25FB, 0x25FC, 0x25FD, 0x25FE, 0x260E, 0x2611, 0x2614,
        0x2615, 0x2618, 0x261D, 0x2620, 0x2622, 0x2623, 0x2626, 0x262A, 0x262E, 0x262F, 0x2638,
        0x2639, 0x263A, 0x2640, 0x2642, 0x2648, 0x2649, 0x264A, 0x264B, 0x264C, 0x264D, 0x264E,
        0x264F, 0x2650, 0x2651, 0x2652, 0x2653, 0x265F, 0x2660, 0x2663, 0x2665, 0x2666, 0x2668,
        0x267B, 0x267E, 0x267F, 0x2692, 0x2693, 0x2694, 0x2695, 0x2696, 0x2697, 0x2699, 0x269B,
        0x269C, 0x26A0, 0x26A1, 0x26A7, 0x26AA, 0x26AB, 0x26B0, 0x26B1, 0x26BD, 0x26BE, 0x26C4,
        0x26C5, 0x26C8, 0x26CE, 0x26CF, 0x26D1, 0x26D3, 0x26D4, 0x26E9, 0x26EA, 0x26F0, 0x26F1,
        0x26F2, 0x26F3, 0x26F4, 0x26F5, 0x26F7, 0x26F8, 0x26F9, 0x26FA, 0x26FD, 0x2702, 0x2705,
        0x2708, 0x2709, 0x270A, 0x270B, 0x270C, 0x270D, 0x270F, 0x2712, 0x2714, 0x2716, 0x271D,
        0x2721, 0x2728, 0x2733, 0x2734, 0x2744, 0x2747, 0x274C, 0x274E, 0x2753, 0x2754, 0x2755,
        0x2757, 0x2763, 0x2764, 0x2795, 0x2796, 0x2797, 0x27A1, 0x27B0, 0x27BF, 0x2934, 0x2935,
        0x2B05, 0x2B06, 0x2B07, 0x2B1B, 0x2B1C, 0x2B50, 0x2B55, 0x3030, 0x303D, 0x3297, 0x3299,
        0xFE0F,
    ];
    for code in 0..0x11_0000u32 {
        if let Some(c) = char::from_u32(code) {
            let listed = (0x1F1E6..=0x1F1FF).contains(&code)
                || (0x1F300..=0x1FAFF).contains(&code)
                || (0x2600..=0x27BF).contains(&code)
                || single.contains(&code)
                || (0x10000..=0x10FFFF).contains(&code);
            assert_eq!(is_emoji_codepoint(c), listed, "{:x}", code);
        }
    }
}
