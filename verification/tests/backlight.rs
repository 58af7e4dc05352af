//! Brightness of the Touch Bar and of the display.

use tiny_dfr::backlight::{
    backlight_line, find_backlight, find_display_backlight, parse_attr, ActivityEvent,
    BacklightManager, SwitchState,
};
use tiny_dfr::config::{default_redraw_shortcut, Config, FnMode};
use tiny_dfr::keys::{
    Key, KEY_BRIGHTNESS_DOWN, KEY_BRIGHTNESS_UP, KEY_ESC, KEY_ILLUM_DOWN, KEY_ILLUM_UP,
};
use tiny_dfr::search::Search;

const MS: u64 = 1_000_000;

fn strings(list: &[&str]) -> Vec<String> {
    list.iter().map(|s| s.to_string()).collect()
}

fn options() -> Config {
    Config {
        media_layer_default: true,
        show_button_outlines: true,
        enable_pixel_shift: false,
        font_renderer: "Cairo".to_string(),
        font_style_cairo: "Sans".to_string(),
        bold_cairo: false,
        italic_cairo: false,
        font_template: ":bold".to_string(),
        emoji_font_template: None,
        adaptive_brightness: false,
        active_brightness: 128,
        dim_timeout_ms: 30_000,
        off_timeout_ms: 60_000,
        dimmed_brightness: 1,
        fn_mode: FnMode::Hold,
        fn_toggle_press_ms: 120,
        layer_shortcuts: vec![],
        redraw_shortcut: default_redraw_shortcut(),
        allow_root_commands: false,
    }
}

#[test]
fn attributes_are_trimmed_numbers() {
    assert_eq!(parse_attr("509\n"), Some(509));
    assert_eq!(parse_attr(" 0 "), Some(0));
    assert_eq!(parse_attr("4294967296"), None);
    assert_eq!(parse_attr(""), None);
    assert_eq!(parse_attr("on"), None);
}

#[test]
fn brightness_is_written_and_read_back() {
    assert_eq!(backlight_line(42), "42\n");
    for value in [0, 1, 255, 509, u32::MAX] {
        assert_eq!(parse_attr(&backlight_line(value)), Some(value));
    }
}

#[test]
fn backlights_are_found_by_name() {
    let names = strings(&["intel_backlight", "appletb_backlight", "228200000.display-pipe.0"]);
    assert_eq!(find_backlight(&names, false), Search::Found(1));
    assert_eq!(find_display_backlight(&names, false), Search::Found(0));
    let none = strings(&["kbd"]);
    assert_eq!(find_backlight(&none, false), Search::Missing);
    assert_eq!(find_backlight(&none, true), Search::ReadFailed);
    assert_eq!(find_display_backlight(&none, false), Search::Missing);
    assert_eq!(find_display_backlight(&none, true), Search::ReadFailed);
    for name in ["x-apple-panel-bl", "gmux_backlight", "acpi_video0"] {
        assert_eq!(find_display_backlight(&strings(&["a", name]), true), Search::Found(1));
    }
}

#[test]
fn brightness_keys_are_told_apart() {
    let key = |code: u16| Key { code };
    for code in [KEY_BRIGHTNESS_UP, KEY_BRIGHTNESS_DOWN] {
        assert!(BacklightManager::is_brightness_key(key(code)));
        assert!(BacklightManager::is_display_brightness_key(key(code)));
        assert!(!BacklightManager::is_touchbar_illum_key(key(code)));
    }
    for code in [KEY_ILLUM_UP, KEY_ILLUM_DOWN] {
        assert!(BacklightManager::is_brightness_key(key(code)));
        assert!(!BacklightManager::is_display_brightness_key(key(code)));
        assert!(BacklightManager::is_touchbar_illum_key(key(code)));
    }
    assert!(!BacklightManager::is_brightness_key(key(KEY_ESC)));
}

#[test]
fn display_brightness_goes_in_steps() {
    let m = BacklightManager::new(255, 100, 512, 0);
    assert_eq!(m.step_display_brightness(100, 1), 116);
    assert_eq!(m.step_display_brightness(100, -1), 84);
    assert_eq!(m.step_display_brightness(500, 1), 512);
    assert_eq!(m.step_display_brightness(10, -1), 0);
    let small = BacklightManager::new(255, 100, 10, 0);
    assert_eq!(small.step_display_brightness(3, 1), 4);
    assert_eq!(small.step_display_brightness(3, -1), 2);
}

#[test]
fn brightness_keys_pause_the_touch_bar() {
    let cfg = options();
    let mut m = BacklightManager::new(255, 3, 512, 0);
    let now = 5 * MS;
    assert_eq!(m.handle_brightness_key(Key { code: KEY_BRIGHTNESS_UP }, now), Some(1));
    assert_eq!(m.handle_brightness_key(Key { code: KEY_BRIGHTNESS_DOWN }, now), Some(-1));
    assert_eq!(m.handle_brightness_key(Key { code: KEY_ILLUM_UP }, now), None);
    assert_eq!(m.update_backlight(&cfg, now + 3000 * MS - 1), None);
    assert_eq!(m.current_bl(), 3);
    assert_eq!(m.update_backlight(&cfg, now + 3000 * MS), Some(128));
    assert_eq!(m.current_bl(), 128);
}

#[test]
fn the_touch_bar_dims_and_goes_dark() {
    let cfg = options();
    let mut m = BacklightManager::new(255, 128, 512, 0);
    assert_eq!(m.update_backlight(&cfg, 29_999 * MS), None);
    assert_eq!(m.update_backlight(&cfg, 30_000 * MS), Some(1));
    assert_eq!(m.update_backlight(&cfg, 59_999 * MS), None);
    assert_eq!(m.update_backlight(&cfg, 60_000 * MS), Some(0));
    assert_eq!(m.update_backlight(&cfg, 61_000 * MS), None);
    m.process_event(ActivityEvent::Other, 62_000 * MS);
    assert_eq!(m.update_backlight(&cfg, 62_000 * MS), None);
    m.process_event(ActivityEvent::Input, 62_000 * MS);
    assert_eq!(m.update_backlight(&cfg, 62_000 * MS), Some(128));
}

#[test]
fn a_shut_lid_turns_the_touch_bar_off() {
    let cfg = options();
    let mut m = BacklightManager::new(255, 128, 512, 0);
    m.process_event(ActivityEvent::Lid(SwitchState::On), MS);
    assert_eq!(m.update_backlight(&cfg, 2 * MS), Some(0));
    m.process_event(ActivityEvent::Lid(SwitchState::Off), 90_000 * MS);
    assert_eq!(m.update_backlight(&cfg, 90_000 * MS), Some(128));
}

#[test]
fn brightness_stays_below_the_maximum() {
    let cfg = options();
    let mut m = BacklightManager::new(100, 0, 512, 0);
    assert_eq!(m.update_backlight(&cfg, 0), Some(100));
}

#[test]
fn illumination_steps_are_throttled() {
    let mut m = BacklightManager::new(255, 100, 512, 0);
    assert_eq!(m.step_touchbar_illumination(1, 0), Some(107));
    assert_eq!(m.step_touchbar_illumination(1, 300 * MS - 1), None);
    assert_eq!(m.current_bl(), 107);
    assert_eq!(m.step_touchbar_illumination(-1, 300 * MS), Some(100));
}

#[test]
fn a_pause_has_the_length_asked_for() {
    let cfg = options();
    let mut m = BacklightManager::new(255, 3, 512, 0);
    m.pause_adaptive_sync(10 * MS, 50);
    assert_eq!(m.update_backlight(&cfg, 59 * MS), None);
    assert_eq!(m.update_backlight(&cfg, 60 * MS), Some(128));
}
