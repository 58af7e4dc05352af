//! Configuration: merging, building buttons and layers, shortcuts, reloading.

use tiny_dfr::button::{emitted_keys, Button, ButtonImage, FunctionLayer, LoadedIcon};
use tiny_dfr::config::{
    default_layer_shortcuts, default_redraw_shortcut, layer_for_shortcut, load_config,
    merge_user_into_base, pick_layer, ButtonConfig, ConfigAction, ConfigEvent, ConfigManager,
    ConfigProxy, FnMode,
};
use tiny_dfr::keys::{Key, KEY_ESC, KEY_TIME, KEY_UNKNOWN};
use tiny_dfr::shortcut::{KeyboardModifiers, KeyboardShortcut, LayerShortcut};

fn text(s: &str) -> Option<String> {
    Some(s.to_string())
}

fn nothing() -> ButtonConfig {
    ButtonConfig {
        icon: None,
        path: None,
        mode: None,
        text: None,
        background: None,
        format: None,
        locale: None,
        command: None,
        switch_to_layer: None,
        action: None,
    }
}

fn labelled(label: &str, action: &str) -> ButtonConfig {
    ButtonConfig { text: text(label), action: text(action), ..nothing() }
}

fn blank_file() -> ConfigProxy {
    ConfigProxy {
        media_layer_default: None,
        special_extended_mode: None,
        show_button_outlines: None,
        enable_pixel_shift: None,
        font_renderer: None,
        font_style: None,
        bold: None,
        italic: None,
        font_template: None,
        emoji_font_template: None,
        media_icon_theme: None,
        app_icon_theme: None,
        adaptive_brightness: None,
        active_brightness: None,
        dim_timeout_ms: None,
        off_timeout_ms: None,
        dimmed_brightness: None,
        fn_mode: None,
        fn_toggle_press_ms: None,
        allow_root_commands: None,
        primary_layer_keys: None,
        media_layer_keys: None,
        app_layer_keys1: None,
        app_layer_keys2: None,
        app_layer_keys3: None,
        custom_bars: None,
        layer_shortcuts: None,
        redraw_shortcut: None,
        button_library: None,
    }
}

fn base_file() -> ConfigProxy {
    ConfigProxy {
        media_layer_default: Some(true),
        special_extended_mode: Some(false),
        show_button_outlines: Some(true),
        enable_pixel_shift: Some(false),
        font_renderer: text("Cairo"),
        font_style: text("Sans"),
        bold: Some(false),
        italic: Some(true),
        font_template: text(":bold"),
        media_icon_theme: text("Media"),
        app_icon_theme: text("Apps"),
        adaptive_brightness: Some(false),
        active_brightness: Some(128),
        primary_layer_keys: Some(vec![labelled("F1", "F1"), labelled("F2", "F2")]),
        media_layer_keys: Some(vec![labelled("mute", "Mute")]),
        app_layer_keys1: Some(vec![labelled("one", "A")]),
        app_layer_keys2: Some(vec![labelled("two", "B")]),
        app_layer_keys3: Some(vec![labelled("three", "C")]),
        ..blank_file()
    }
}

fn label(button: &Button) -> String {
    match &button.image {
        ButtonImage::Text(t) => t.clone(),
        _ => panic!("no text"),
    }
}

fn first_labels(layers: &Vec<FunctionLayer>) -> Vec<String> {
    layers.iter().map(|l| label(&l.buttons[0])).collect()
}

#[test]
fn fn_modes_are_told_by_name() {
    assert_eq!(FnMode::from_config(None), FnMode::Hold);
    assert_eq!(FnMode::from_config(text("TOGGLE")), FnMode::Toggle);
    assert_eq!(FnMode::from_config(text("Smart")), FnMode::Smart);
    assert_eq!(FnMode::from_config(text("hold")), FnMode::Hold);
    assert_eq!(FnMode::from_config(text("other")), FnMode::Hold);
}

#[test]
fn user_options_override_those_of_the_base() {
    let mut base = base_file();
    let user = ConfigProxy {
        active_brightness: Some(7),
        fn_mode: text("smart"),
        media_icon_theme: text("Mine"),
        media_layer_keys: Some(vec![labelled("play", "PlayPause")]),
        ..blank_file()
    };
    merge_user_into_base(&mut base, user);
    assert_eq!(base.active_brightness, Some(7));
    assert_eq!(base.fn_mode, text("smart"));
    assert_eq!(base.show_button_outlines, Some(true));
    assert_eq!(base.font_style, text("Sans"));
    assert_eq!(base.media_layer_keys.unwrap()[0].text, text("play"));
    // The themes are merged where they are loaded.
    assert_eq!(base.media_icon_theme, text("Media"));
}

#[test]
fn an_empty_user_file_changes_nothing() {
    let mut base = base_file();
    merge_user_into_base(&mut base, blank_file());
    assert_eq!(base.media_layer_default, Some(true));
    assert_eq!(base.font_template, text(":bold"));
    assert_eq!(base.primary_layer_keys.unwrap().len(), 2);
    assert_eq!(base.dim_timeout_ms, None);
}

#[test]
fn options_have_defaults() {
    let (cfg, layers) = load_config(base_file(), 2000);
    assert_eq!(cfg.dim_timeout_ms, 30_000);
    assert_eq!(cfg.off_timeout_ms, 60_000);
    assert_eq!(cfg.dimmed_brightness, 1);
    assert_eq!(cfg.fn_mode, FnMode::Hold);
    assert_eq!(cfg.fn_toggle_press_ms, 120);
    assert_eq!(cfg.layer_shortcuts.len(), 10);
    assert_eq!(cfg.redraw_shortcut.code, Some(51));
    assert!(!cfg.allow_root_commands);
    assert!(cfg.italic_cairo);
    assert_eq!(layers.len(), 2);
}

#[test]
fn given_options_are_kept() {
    let file = ConfigProxy {
        dim_timeout_ms: Some(1),
        off_timeout_ms: Some(2),
        dimmed_brightness: Some(3),
        fn_mode: text("toggle"),
        fn_toggle_press_ms: Some(4),
        layer_shortcuts: Some(vec![]),
        redraw_shortcut: Some(KeyboardShortcut { code: Some(9), ..default_redraw_shortcut() }),
        allow_root_commands: Some(true),
        emoji_font_template: text("Noto"),
        ..base_file()
    };
    let (cfg, _) = load_config(file, 2000);
    assert_eq!(cfg.dim_timeout_ms, 1);
    assert_eq!(cfg.off_timeout_ms, 2);
    assert_eq!(cfg.dimmed_brightness, 3);
    assert_eq!(cfg.fn_mode, FnMode::Toggle);
    assert_eq!(cfg.fn_toggle_press_ms, 4);
    assert!(cfg.layer_shortcuts.is_empty());
    assert_eq!(cfg.redraw_shortcut.code, Some(9));
    assert!(cfg.allow_root_commands);
    assert_eq!(cfg.emoji_font_template, text("Noto"));
}

#[test]
fn layers_are_ordered_by_the_options() {
    for (media, extended, expected) in [
        (true, false, vec!["mute", "F1"]),
        (false, false, vec!["F1", "mute"]),
        (true, true, vec!["one", "F1", "two", "three"]),
        (false, true, vec!["F1", "one", "two", "three"]),
    ] {
        let file = ConfigProxy {
            media_layer_default: Some(media),
            special_extended_mode: Some(extended),
            ..base_file()
        };
        let (_, layers) = load_config(file, 2169);
        assert_eq!(first_labels(&layers), expected);
    }
}

#[test]
fn custom_bars_follow_the_named_layers() {
    let file = ConfigProxy {
        custom_bars: Some(vec![vec![labelled("x", "X")], vec![labelled("y", "Y")]]),
        ..base_file()
    };
    let (_, layers) = load_config(file, 1000);
    assert_eq!(first_labels(&layers), vec!["mute", "F1", "x", "y"]);
}

#[test]
fn wide_bars_get_an_escape_key() {
    let (_, layers) = load_config(base_file(), 2170);
    for layer in &layers {
        assert_eq!(label(&layer.buttons[0]), "esc");
        assert_eq!(layer.buttons[0].action.code, KEY_ESC);
        assert!(layer.buttons[0].background);
        assert!(!layer.buttons[0].active && !layer.buttons[0].changed);
        assert!(layer.buttons.len() > 1);
    }
    let (_, narrow) = load_config(base_file(), 2169);
    assert_eq!(first_labels(&narrow), vec!["mute", "F1"]);
}

#[test]
fn incomplete_files_are_refused() {
    let manager = ConfigManager::new(None);
    assert!(manager.try_load_config(base_file(), None, 2000).is_some());
    assert!(manager.try_load_config(blank_file(), None, 2000).is_none());
    assert!(manager.try_load_config(blank_file(), Some(base_file()), 2000).is_some());
    let no_buttons = ConfigProxy { media_layer_keys: Some(vec![]), ..blank_file() };
    assert!(manager.try_load_config(base_file(), Some(no_buttons), 2000).is_none());
    let bad_bar = ConfigProxy { custom_bars: Some(vec![vec![nothing()]]), ..blank_file() };
    assert!(manager.try_load_config(base_file(), Some(bad_bar), 2000).is_none());
    let empty_bar = ConfigProxy { custom_bars: Some(vec![vec![]]), ..blank_file() };
    assert!(manager.try_load_config(base_file(), Some(empty_bar), 2000).is_none());
    let user = ConfigProxy { active_brightness: Some(9), ..blank_file() };
    let (cfg, _) = manager.load_config(base_file(), Some(user), 2000);
    assert_eq!(cfg.active_brightness, 9);
}

#[test]
fn themes_are_those_of_the_user_where_given() {
    let manager = ConfigManager::new(None);
    let user = ConfigProxy { app_icon_theme: text("Mine"), ..blank_file() };
    let theme = manager.load_theme(base_file(), Some(user));
    assert_eq!(theme.media_icon_theme, "Media");
    assert_eq!(theme.app_icon_theme, "Mine");
    assert_eq!(manager.load_theme(base_file(), None).app_icon_theme, "Apps");
}

#[test]
fn the_file_is_watched() {
    let mut m = ConfigManager::new(None);
    assert_eq!(m.update_config(ConfigEvent::Poll), ConfigAction::Arm);
    assert_eq!(m.update_config(ConfigEvent::Armed(None)), ConfigAction::Keep);
    assert_eq!(m.update_config(ConfigEvent::Poll), ConfigAction::Arm);
    assert_eq!(m.update_config(ConfigEvent::Armed(Some(4))), ConfigAction::Keep);
    assert_eq!(m.update_config(ConfigEvent::Poll), ConfigAction::Read);
    assert_eq!(m.update_config(ConfigEvent::Changed(3)), ConfigAction::Keep);
    assert_eq!(m.update_config(ConfigEvent::Changed(4)), ConfigAction::Reload);
    assert_eq!(m.update_config(ConfigEvent::Reloaded(true, Some(5))), ConfigAction::Apply);
    assert_eq!(m.watch_desc, Some(5));
    assert_eq!(m.update_config(ConfigEvent::Reloaded(false, None)), ConfigAction::Keep);
    assert_eq!(m.watch_desc, None);
}

#[test]
fn the_last_successful_reload_counts() {
    let mut m = ConfigManager::new(Some(1));
    let changes = vec![
        (2, true, None),
        (1, true, Some(2)),
        (1, true, None),
        (2, true, Some(3)),
        (3, false, Some(4)),
        (3, true, None),
    ];
    assert_eq!(m.update_config(ConfigEvent::Poll), ConfigAction::Read);
    let mut applied = Vec::new();
    for (i, (wd, loaded, rearmed)) in changes.into_iter().enumerate() {
        if m.update_config(ConfigEvent::Changed(wd)) != ConfigAction::Reload {
            continue;
        }
        let event = ConfigEvent::Reloaded(loaded, rearmed);
        if m.update_config(event) == ConfigAction::Apply {
            applied.push(i);
        }
    }
    assert_eq!(applied, vec![1, 3]);
    assert_eq!(m.watch_desc, Some(4));
}

#[test]
fn text_buttons_have_a_background() {
    let b = Button::with_config(ButtonConfig {
        command: text("ls"),
        switch_to_layer: Some(3),
        ..labelled("a", "NoSuchKey")
    });
    assert_eq!(label(&b), "a");
    assert_eq!(b.action, Key { code: KEY_UNKNOWN });
    assert!(b.background && !b.active && !b.changed);
    assert_eq!(b.command, text("ls"));
    assert_eq!(b.switch_to_layer, Some(3));
    let plain = Button::with_config(ButtonConfig { background: Some(false), ..labelled("a", "A") });
    assert!(!plain.background);
}

#[test]
fn icons_have_a_background_unless_they_are_apps() {
    let media = Button::with_config(ButtonConfig {
        icon: text("mute"),
        mode: text("Media"),
        action: text("Mute"),
        ..nothing()
    });
    assert!(media.background);
    assert_eq!(media.action, Key { code: input_linux::Key::Mute as u16 });
    match &media.image {
        ButtonImage::Icon(request) => {
            assert_eq!(request.name, "mute");
            assert_eq!(request.path, "use_default");
            assert_eq!(request.mode, text("Media"));
        }
        _ => panic!("no icon"),
    }
    let app = Button::with_config(ButtonConfig {
        icon: text("web"),
        mode: text("APP"),
        text: text("ignored"),
        ..nothing()
    });
    assert!(!app.background);
}

#[test]
fn blank_buttons_and_clocks_have_no_background() {
    let blank = Button::with_config(ButtonConfig {
        mode: text("Blank"),
        command: text("ignored"),
        switch_to_layer: Some(1),
        ..nothing()
    });
    assert!(matches!(blank.image, ButtonImage::Blank));
    assert!(!blank.background && blank.command.is_none() && blank.switch_to_layer.is_none());
    let clock = Button::with_config(ButtonConfig {
        mode: text("time"),
        action: text("Time"),
        ..nothing()
    });
    assert_eq!(clock.action.code, KEY_TIME);
    match &clock.image {
        ButtonImage::Time(format, locale) => {
            assert_eq!(format, "24hr");
            assert_eq!(locale, "POSIX");
        }
        _ => panic!("no clock"),
    }
    let local = Button::with_config(ButtonConfig {
        mode: text("TIME"),
        format: text("12hr"),
        locale: text("de_DE"),
        background: Some(true),
        ..nothing()
    });
    assert!(local.background);
    match &local.image {
        ButtonImage::Time(format, locale) => {
            assert_eq!(format, "12hr");
            assert_eq!(locale, "de_DE");
        }
        _ => panic!("no clock"),
    }
}

#[test]
fn invalid_buttons_are_recognised() {
    assert!(!nothing().is_valid());
    assert!(!ButtonConfig { mode: text("other"), ..nothing() }.is_valid());
    assert!(ButtonConfig { mode: text("bLaNk"), ..nothing() }.is_valid());
    assert!(!ButtonConfig { icon: text("x"), ..nothing() }.is_valid());
    assert!(!ButtonConfig { icon: text("x"), path: text("/p"), ..nothing() }.is_valid());
    assert!(!ButtonConfig { icon: text("x"), background: Some(true), ..nothing() }.is_valid());
    assert!(ButtonConfig {
        icon: text("x"),
        path: text("/p"),
        background: Some(true),
        ..nothing()
    }
    .is_valid());
    assert!(ButtonConfig { icon: text("x"), mode: text("any"), ..nothing() }.is_valid());
    assert!(!FunctionLayer::is_valid(&vec![]));
    assert!(!FunctionLayer::is_valid(&vec![labelled("a", "A"), nothing()]));
    assert!(FunctionLayer::is_valid(&vec![labelled("a", "A")]));
}

#[test]
fn icons_that_fail_to_load_show_their_name() {
    let icon = || {
        Button::new_icon(
            "web".to_string(),
            Key { code: 2 },
            None,
            "/p".to_string(),
            true,
            None,
            None,
        )
    };
    let mut b = icon();
    b.icon_loaded(LoadedIcon::Failed);
    assert_eq!(label(&b), "web");
    let mut b = icon();
    b.icon_loaded(LoadedIcon::Svg(3));
    assert!(matches!(b.image, ButtonImage::Svg(3)));
    let mut b = icon();
    b.icon_loaded(LoadedIcon::Bitmap(4));
    assert!(matches!(b.image, ButtonImage::Bitmap(4)));
    b.icon_loaded(LoadedIcon::Svg(9));
    assert!(matches!(b.image, ButtonImage::Bitmap(4)));
}

#[test]
fn keys_to_send_are_listed() {
    let layers = vec![
        FunctionLayer::with_config(vec![labelled("a", "A"), labelled("none", "NoSuchKey")]),
        FunctionLayer::with_config(vec![labelled("t", "Time"), labelled("b", "B")]),
    ];
    let codes: Vec<u16> = emitted_keys(&layers).iter().map(|k| k.code).collect();
    assert_eq!(codes, vec![input_linux::Key::A as u16, input_linux::Key::B as u16]);
}

#[test]
fn digits_select_layers_with_fn() {
    let shortcuts = default_layer_shortcuts();
    let codes: Vec<Option<u32>> = shortcuts.iter().map(|s| s.code).collect();
    assert_eq!(
        codes,
        vec![
            Some(11), Some(2), Some(3), Some(4), Some(5), Some(6), Some(7), Some(8), Some(9),
            Some(10)
        ]
    );
    let (cfg, _) = load_config(base_file(), 2000);
    let none = KeyboardModifiers::default();
    assert_eq!(layer_for_shortcut(&cfg, 11, true, &none), Some(0));
    assert_eq!(layer_for_shortcut(&cfg, 4, true, &none), Some(3));
    assert_eq!(layer_for_shortcut(&cfg, 4, false, &none), None);
    assert_eq!(layer_for_shortcut(&cfg, 30, true, &none), None);
}

fn to_layer(layer: usize, ctrl: Option<bool>) -> LayerShortcut {
    LayerShortcut {
        key: None,
        code: Some(30),
        layer,
        require_fn: None,
        ctrl,
        alt: None,
        shift: None,
        super_key: None,
    }
}

#[test]
fn the_best_shortcut_wins() {
    let shortcuts = vec![to_layer(9, None), to_layer(2, Some(true)), to_layer(2, Some(true))];
    assert_eq!(pick_layer(&shortcuts, &vec![true, true, true]), Some(2));
    assert_eq!(pick_layer(&shortcuts, &vec![true, false, false]), Some(9));
    assert_eq!(pick_layer(&shortcuts, &vec![false, false, false]), None);
    // Of equal priorities the last one counts.
    let equal = vec![to_layer(20, None), to_layer(4, Some(true)), to_layer(20, None)];
    assert_eq!(pick_layer(&equal, &vec![true, true, false]), Some(4));
    assert_eq!(pick_layer(&equal, &vec![true, true, true]), Some(20));
}

#[test]
fn the_redraw_shortcut_is_fn_shift_comma() {
    let s = default_redraw_shortcut();
    let mut m = KeyboardModifiers::default();
    assert!(!s.matches(51, true, &m, false));
    m.shift = true;
    assert!(s.matches(51, true, &m, false));
    assert!(!s.matches(51, false, &m, false));
    assert_eq!(s.code, Some(input_linux::Key::Comma as u32));
}
