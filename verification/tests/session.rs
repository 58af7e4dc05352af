//! Touches, layers and drawing.

use tiny_dfr::button::{
    Button, DrawItem, FunctionLayer, InputEvent, Shade, EV_KEY, EV_SYN, SYN_REPORT,
};
use tiny_dfr::config::{default_layer_shortcuts, default_redraw_shortcut, Config, FnMode};
use tiny_dfr::keys::{Key, KEY_FN, KEY_MACRO1, KEY_MACRO2, KEY_MACRO3, KEY_TIME, KEY_UNKNOWN};
use tiny_dfr::session::{
    baseline_layer, fn_toggle_target, is_quick_tap, mark_all_layers_dirty, mark_layer_dirty,
    release_button, resolve_layer_index, TouchBar, INTERACTIVE_POLL_MS, TIMEOUT_MS,
};

const MS: u64 = 1_000_000;
const FN: u32 = KEY_FN as u32;

fn key_button(code: u16) -> Button {
    Button::new_text("k".to_string(), Key { code }, true, None, None)
}

fn layer_button(layer: usize) -> Button {
    Button::new_text("l".to_string(), Key { code: KEY_UNKNOWN }, true, None, Some(layer))
}

fn command_button(command: &str) -> Button {
    Button::new_text(
        "c".to_string(),
        Key { code: KEY_UNKNOWN },
        true,
        Some(command.to_string()),
        None,
    )
}

fn dead_button() -> Button {
    Button::new_blank(Key { code: KEY_UNKNOWN }, true)
}

fn layers() -> Vec<FunctionLayer> {
    vec![
        FunctionLayer { buttons: vec![key_button(10), layer_button(2), command_button("ls")] },
        FunctionLayer { buttons: vec![key_button(20), dead_button()] },
        FunctionLayer { buttons: vec![key_button(30), layer_button(0)] },
        FunctionLayer { buttons: vec![key_button(40)] },
    ]
}

fn bar() -> TouchBar {
    TouchBar::new(layers(), 0)
}

fn options(fn_mode: FnMode) -> Config {
    Config {
        media_layer_default: true,
        show_button_outlines: true,
        enable_pixel_shift: false,
        font_renderer: "Cairo".to_string(),
        font_style_cairo: "Sans".to_string(),
        bold_cairo: false,
        italic_cairo: false,
        font_template: ":bold".to_string(),
        emoji_font_template: None,
        adaptive_brightness: false,
        active_brightness: 128,
        dim_timeout_ms: 30_000,
        off_timeout_ms: 60_000,
        dimmed_brightness: 1,
        fn_mode,
        fn_toggle_press_ms: 120,
        layer_shortcuts: default_layer_shortcuts(),
        redraw_shortcut: default_redraw_shortcut(),
        allow_root_commands: false,
    }
}

fn press(code: u16) -> Vec<InputEvent> {
    toggle(code, 1)
}

fn release(code: u16) -> Vec<InputEvent> {
    toggle(code, 0)
}

fn tap(code: u16) -> Vec<InputEvent> {
    [press(code), release(code)].concat()
}

fn toggle(code: u16, value: i32) -> Vec<InputEvent> {
    vec![
        InputEvent { kind: EV_KEY, code, value },
        InputEvent { kind: EV_SYN, code: SYN_REPORT, value: 0 },
    ]
}

#[test]
fn event_codes_are_those_of_the_input_layer() {
    assert_eq!(EV_KEY, input_linux::EventKind::Key as u16);
    assert_eq!(EV_SYN, input_linux::EventKind::Synchronize as u16);
    assert_eq!(SYN_REPORT, input_linux::SynchronizeKind::Report as u16);
}

#[test]
fn a_touch_taps_its_key() {
    let mut bar = bar();
    let mut out = Vec::new();
    assert_eq!(bar.touch_down(&mut out, 0, Some(0)), None);
    assert_eq!(out, tap(10));
    assert!(bar.layers()[0].buttons[0].active);
    assert!(bar.layers()[0].buttons[0].changed);
    assert_eq!(bar.touch_count(), 1);
    out.clear();
    assert_eq!(bar.touch_up(&mut out, 0), None);
    assert_eq!(out, release(10));
    assert!(!bar.layers()[0].buttons[0].active);
    assert_eq!(bar.touch_count(), 0);
}

#[test]
fn touches_beside_the_buttons_do_nothing() {
    let mut bar = bar();
    let mut out = Vec::new();
    bar.touch_down(&mut out, 0, None);
    assert_eq!(bar.touch_up(&mut out, 0), None);
    assert!(out.is_empty());
    assert_eq!(bar.touch_up(&mut out, 7), None);
    assert!(out.is_empty());
}

#[test]
fn dead_buttons_do_not_react() {
    let mut bar = bar();
    let mut out = Vec::new();
    bar.set_active_layer(&mut out, 1, true);
    bar.touch_down(&mut out, 0, Some(1));
    assert!(out.is_empty());
    assert_eq!(bar.touch_count(), 0);
    assert!(!bar.layers()[1].buttons[1].active);
}

#[test]
fn a_slot_in_use_is_let_go_first() {
    let mut bar = bar();
    let mut out = Vec::new();
    bar.touch_down(&mut out, 3, Some(0));
    out.clear();
    bar.touch_down(&mut out, 3, Some(2));
    assert_eq!(out, release(10));
    assert_eq!(bar.touch_count(), 1);
    assert!(!bar.layers()[0].buttons[0].active);
    assert!(bar.layers()[0].buttons[2].active);
    bar.touch_down(&mut out, 3, None);
    assert_eq!(bar.touch_count(), 0);
}

#[test]
fn commands_run_when_the_finger_lifts() {
    let mut bar = bar();
    let mut out = Vec::new();
    bar.touch_down(&mut out, 0, Some(2));
    assert!(bar.layers()[0].buttons[2].active);
    assert_eq!(bar.touch_up(&mut out, 0), Some("ls".to_string()));
    assert!(out.is_empty());
}

#[test]
fn cancelled_touches_run_no_command() {
    let mut bar = bar();
    let mut out = Vec::new();
    bar.touch_down(&mut out, 0, Some(2));
    bar.touch_down(&mut out, 1, Some(0));
    out.clear();
    bar.release_all(&mut out);
    assert_eq!(out, release(10));
    assert_eq!(bar.touch_count(), 0);
    assert_eq!(bar.touch_up(&mut out, 0), None);
}

#[test]
fn a_finger_runs_the_command_of_its_own_button() {
    let mut bar = TouchBar::new(
        vec![
            FunctionLayer {
                buttons: vec![command_button("ls"), command_button("df"), layer_button(1)],
            },
            FunctionLayer { buttons: vec![command_button("ps")] },
        ],
        0,
    );
    let mut out = Vec::new();
    bar.touch_down(&mut out, 4, Some(0));
    bar.touch_down(&mut out, 5, Some(1));
    // Another finger shows another layer; the touches last.
    bar.touch_down(&mut out, 6, Some(2));
    assert_eq!(bar.active_layer(), 1);
    bar.touch_down(&mut out, 7, Some(0));
    assert_eq!(bar.touch_up(&mut out, 5), Some("df".to_string()));
    assert_eq!(bar.touch_up(&mut out, 5), None);
    assert_eq!(bar.touch_up(&mut out, 6), None);
    assert_eq!(bar.touch_up(&mut out, 4), Some("ls".to_string()));
    // A layer that no finger asked for ends the touch.
    bar.set_active_layer(&mut out, 0, true);
    assert_eq!(bar.touch_up(&mut out, 7), None);
}

#[test]
fn reloads_and_removal_run_no_command() {
    let mut bar = bar();
    let mut out = Vec::new();
    bar.touch_down(&mut out, 0, Some(2));
    bar.reload(&mut out, layers());
    assert_eq!(bar.touch_up(&mut out, 0), None);
    bar.touch_down(&mut out, 0, Some(2));
    bar.digitizer_removed(&mut out);
    assert_eq!(bar.touch_up(&mut out, 0), None);
    bar.touch_down(&mut out, 0, Some(2));
    bar.touch_down(&mut out, 0, Some(0));
    assert_eq!(bar.touch_up(&mut out, 0), None);
}

#[test]
fn layer_buttons_show_their_layer() {
    let mut bar = bar();
    let mut out = Vec::new();
    bar.touch_down(&mut out, 0, Some(1));
    assert_eq!(bar.active_layer(), 2);
    // The button on the hidden layer stays lit until the finger lifts.
    assert!(bar.layers()[0].buttons[1].active);
    bar.touch_up(&mut out, 0);
    assert!(!bar.layers()[0].buttons[1].active);
    assert!(out.is_empty());
    bar.touch_down(&mut out, 0, Some(1));
    assert_eq!(bar.active_layer(), 0);
}

#[test]
fn missing_layers_are_not_shown() {
    let mut bar = bar();
    let mut out = Vec::new();
    assert_eq!(bar.apply_layer_selection(&mut out, 9, true), Some(9));
    assert_eq!(bar.set_active_layer(&mut out, 4, true), Some(4));
    assert_eq!(bar.active_layer(), 0);
    assert_eq!(bar.set_active_layer(&mut out, 3, true), None);
    assert_eq!(resolve_layer_index(3, 4), Some(3));
    assert_eq!(resolve_layer_index(4, 4), None);
    assert_eq!(resolve_layer_index(0, 0), None);
}

#[test]
fn refused_layers_are_told() {
    let cfg = options(FnMode::Hold);
    let mut few = layers();
    few.truncate(2);
    few[0].buttons.push(layer_button(7));
    let mut bar = TouchBar::new(few, 0);
    let mut out = Vec::new();
    assert_eq!(bar.touch_down(&mut out, 0, Some(3)), Some(7));
    assert_eq!(bar.handle_key(&mut out, &cfg, KEY_MACRO3 as u32, true, 0), Some(3));
    assert_eq!(bar.handle_key(&mut out, &cfg, KEY_MACRO1 as u32, true, 0), None);
    assert_eq!(bar.handle_key(&mut out, &cfg, FN, true, 0), None);
    assert_eq!(bar.handle_key(&mut out, &cfg, 10, true, 0), Some(9));
    assert_eq!(bar.active_layer(), 1);
}

#[test]
fn switching_layers_releases_held_keys() {
    let mut bar = bar();
    let mut out = Vec::new();
    bar.touch_down(&mut out, 0, Some(0));
    out.clear();
    bar.set_active_layer(&mut out, 0, true);
    assert!(out.is_empty());
    bar.set_active_layer(&mut out, 3, true);
    assert_eq!(out, release(10));
    assert_eq!(bar.touch_count(), 0);
}

#[test]
fn hold_shows_the_fn_layer_while_held() {
    let cfg = options(FnMode::Hold);
    let mut bar = bar();
    let mut out = Vec::new();
    bar.handle_key(&mut out, &cfg, FN, true, 0);
    assert_eq!(bar.active_layer(), 1);
    bar.handle_key(&mut out, &cfg, FN, false, 5 * MS);
    assert_eq!(bar.active_layer(), 0);
}

#[test]
fn hold_leads_back_to_the_chosen_bar() {
    let cfg = options(FnMode::Hold);
    let mut bar = bar();
    let mut out = Vec::new();
    bar.apply_layer_selection(&mut out, 3, true);
    bar.handle_key(&mut out, &cfg, FN, true, 0);
    assert_eq!(bar.active_layer(), 1);
    bar.handle_key(&mut out, &cfg, FN, false, 0);
    assert_eq!(bar.active_layer(), 3);
}

#[test]
fn toggle_flips_with_each_press() {
    let cfg = options(FnMode::Toggle);
    let mut bar = bar();
    let mut out = Vec::new();
    for expected in [1, 0, 1] {
        bar.handle_key(&mut out, &cfg, FN, true, 0);
        assert_eq!(bar.active_layer(), expected);
        bar.handle_key(&mut out, &cfg, FN, false, 500 * MS);
        assert_eq!(bar.active_layer(), expected);
    }
}

#[test]
fn smart_taps_toggle_and_long_presses_hold() {
    let cfg = options(FnMode::Smart);
    let mut bar = bar();
    let mut out = Vec::new();
    bar.handle_key(&mut out, &cfg, FN, true, 0);
    assert_eq!(bar.active_layer(), 1);
    bar.handle_key(&mut out, &cfg, FN, false, 120 * MS);
    assert_eq!(bar.active_layer(), 1);
    bar.handle_key(&mut out, &cfg, FN, true, 1000 * MS);
    bar.handle_key(&mut out, &cfg, FN, false, 1050 * MS);
    assert_eq!(bar.active_layer(), 0);
    bar.handle_key(&mut out, &cfg, FN, true, 2000 * MS);
    assert_eq!(bar.active_layer(), 1);
    bar.handle_key(&mut out, &cfg, FN, false, 2000 * MS + 120 * MS + 1);
    assert_eq!(bar.active_layer(), 0);
}

#[test]
fn quick_taps_are_short() {
    assert!(is_quick_tap(Some(0), 120 * MS, 120));
    assert!(!is_quick_tap(Some(0), 120 * MS + 1, 120));
    assert!(!is_quick_tap(None, 0, 120));
    assert!(is_quick_tap(None, 0, u64::MAX));
}

#[test]
fn shortcuts_outlast_the_fn_key() {
    let cfg = options(FnMode::Hold);
    let mut bar = bar();
    let mut out = Vec::new();
    bar.handle_key(&mut out, &cfg, FN, true, 0);
    bar.handle_key(&mut out, &cfg, 4, true, 0);
    assert_eq!(bar.active_layer(), 3);
    bar.handle_key(&mut out, &cfg, 4, false, 0);
    bar.handle_key(&mut out, &cfg, FN, false, 0);
    assert_eq!(bar.active_layer(), 3);
    bar.handle_key(&mut out, &cfg, 11, true, 0);
    assert_eq!(bar.active_layer(), 3);
}

#[test]
fn macro_keys_select_layers() {
    let cfg = options(FnMode::Hold);
    let mut other = options(FnMode::Hold);
    other.media_layer_default = false;
    let mut bar = bar();
    let mut out = Vec::new();
    bar.handle_key(&mut out, &cfg, KEY_MACRO2 as u32, true, 0);
    assert_eq!(bar.active_layer(), 2);
    bar.handle_key(&mut out, &cfg, KEY_MACRO3 as u32, true, 0);
    assert_eq!(bar.active_layer(), 3);
    bar.handle_key(&mut out, &cfg, KEY_MACRO1 as u32, true, 0);
    assert_eq!(bar.active_layer(), 0);
    bar.handle_key(&mut out, &other, KEY_MACRO1 as u32, true, 0);
    assert_eq!(bar.active_layer(), 1);
    bar.handle_key(&mut out, &cfg, KEY_MACRO3 as u32, false, 0);
    assert_eq!(bar.active_layer(), 1);
}

#[test]
fn the_redraw_shortcut_draws_everything() {
    let cfg = options(FnMode::Toggle);
    let mut bar = bar();
    let mut out = Vec::new();
    bar.handle_key(&mut out, &cfg, FN, true, 0);
    bar.draw(true);
    assert!(bar.draw(true).is_none());
    bar.handle_key(&mut out, &cfg, input_linux::Key::LeftShift as u32, true, 0);
    bar.handle_key(&mut out, &cfg, 51, true, 0);
    for layer in bar.layers() {
        for button in &layer.buttons {
            assert!(button.changed);
        }
    }
    assert!(bar.draw(true).unwrap().complete);
}

#[test]
fn baselines_prefer_the_chosen_bar() {
    assert_eq!(baseline_layer(Some(5), true, 0, 1), 5);
    assert_eq!(baseline_layer(None, true, 0, 1), 1);
    assert_eq!(baseline_layer(None, false, 0, 1), 0);
    assert_eq!(fn_toggle_target(true, 0, 1), 1);
    assert_eq!(fn_toggle_target(false, 0, 1), 0);
}

#[test]
fn a_lost_digitizer_lets_go() {
    let mut bar = bar();
    let mut out = Vec::new();
    bar.draw(true);
    bar.touch_down(&mut out, 0, Some(0));
    out.clear();
    bar.digitizer_removed(&mut out);
    assert_eq!(out, release(10));
    assert_eq!(bar.touch_count(), 0);
    assert!(bar.draw(true).unwrap().complete);
}

#[test]
fn reloading_starts_over() {
    let cfg = options(FnMode::Toggle);
    let mut bar = bar();
    let mut out = Vec::new();
    bar.handle_key(&mut out, &cfg, FN, true, 0);
    bar.draw(true);
    bar.reload(&mut out, layers());
    assert_eq!(bar.active_layer(), 0);
    assert_eq!(bar.touch_count(), 0);
    assert!(out.is_empty());
    assert!(bar.draw(true).unwrap().complete);
    bar.handle_key(&mut out, &cfg, FN, true, 0);
    assert_eq!(bar.active_layer(), 1);
}

#[test]
fn a_key_does_not_stick_when_a_reload_comes_under_the_finger() {
    let mut bar = bar();
    let mut out = Vec::new();
    bar.touch_down(&mut out, 0, Some(0));
    bar.reload(&mut out, layers());
    bar.touch_up(&mut out, 0);
    assert_eq!(out, tap(10));
}

#[test]
fn a_second_finger_on_a_button_sends_nothing() {
    let mut bar = bar();
    let mut out = Vec::new();
    bar.touch_down(&mut out, 0, Some(0));
    out.clear();
    bar.touch_down(&mut out, 1, Some(0));
    assert!(out.is_empty());
    assert_eq!(bar.touch_count(), 2);
}

#[test]
fn orphaned_highlights_are_put_out() {
    let mut lit = layers();
    let mut out = Vec::new();
    lit[0].buttons[0].set_active(&mut out, true);
    let mut bar = TouchBar::new(lit, 0);
    out.clear();
    bar.clear_orphans(&mut out);
    assert_eq!(out, release(10));
    assert!(!bar.layers()[0].buttons[0].active);
    bar.touch_down(&mut out, 0, Some(0));
    out.clear();
    bar.clear_orphans(&mut out);
    assert!(out.is_empty());
    assert!(bar.layers()[0].buttons[0].active);
}

#[test]
fn orphans_go_out_while_another_button_is_touched() {
    let mut lit = layers();
    let mut out = Vec::new();
    for (layer, button) in [(0, 0), (1, 0), (2, 0)] {
        lit[layer].buttons[button].set_active(&mut out, true);
    }
    let mut bar = TouchBar::new(lit, 0);
    bar.touch_down(&mut out, 0, Some(2));
    bar.touch_down(&mut out, 1, Some(0));
    out.clear();
    bar.clear_orphans(&mut out);
    assert_eq!(out, [release(20), release(30)].concat());
    assert!(bar.layers()[0].buttons[0].active);
    assert!(bar.layers()[0].buttons[2].active);
    assert!(!bar.layers()[1].buttons[0].active);
    assert!(!bar.layers()[2].buttons[0].active);
    assert_eq!(bar.touch_count(), 2);
}

#[test]
fn every_press_is_released_at_once() {
    let cfg = options(FnMode::Smart);
    let mut bar = bar();
    let mut out = Vec::new();
    bar.touch_down(&mut out, 0, Some(0));
    bar.touch_down(&mut out, 1, Some(0));
    bar.touch_down(&mut out, 2, Some(1));
    bar.touch_down(&mut out, 3, Some(0));
    bar.handle_key(&mut out, &cfg, FN, true, 0);
    bar.touch_down(&mut out, 0, Some(0));
    bar.reload(&mut out, layers());
    bar.touch_up(&mut out, 2);
    bar.handle_key(&mut out, &cfg, FN, false, 900 * MS);
    bar.touch_down(&mut out, 1, Some(0));
    for (i, event) in out.iter().enumerate() {
        if event.kind == EV_KEY && event.value == 1 {
            assert_eq!(out[i..i + 4].to_vec(), tap(event.code));
        }
    }
    bar.release_all(&mut out);
    assert!(bar.layers().iter().all(|l| l.buttons.iter().all(|b| !b.active)));
}

#[test]
fn waiting_is_short_while_something_is_due() {
    let mut bar = bar();
    let mut out = Vec::new();
    assert_eq!(bar.prepare_poll(None, 0), INTERACTIVE_POLL_MS);
    bar.draw(true);
    assert_eq!(bar.prepare_poll(None, 0), TIMEOUT_MS);
    assert_eq!(bar.prepare_poll(Some((false, 500)), 0), 500);
    assert_eq!(bar.prepare_poll(Some((false, 50_000)), 0), TIMEOUT_MS);
    bar.touch_down(&mut out, 0, Some(0));
    assert_eq!(bar.prepare_poll(None, 0), INTERACTIVE_POLL_MS);
    bar.touch_up(&mut out, 0);
    bar.draw(true);
    assert_eq!(bar.prepare_poll(Some((true, 500)), 0), INTERACTIVE_POLL_MS);
    assert!(bar.draw(true).unwrap().complete);
}

#[test]
fn clocks_are_drawn_every_minute() {
    let clock = || {
        Button::new_time(
            Key { code: KEY_TIME },
            "24hr".to_string(),
            "POSIX".to_string(),
            false,
        )
    };
    let mut bar = TouchBar::new(vec![FunctionLayer { buttons: vec![clock()] }], 5);
    bar.draw(true);
    assert_eq!(bar.prepare_poll(None, 5), TIMEOUT_MS);
    assert_eq!(bar.prepare_poll(None, 6), INTERACTIVE_POLL_MS);
    let drawing = bar.draw(true).unwrap();
    assert_eq!(
        drawing.items,
        vec![DrawItem { index: 0, span: 3, shade: None, partial: false }]
    );
    assert_eq!(bar.prepare_poll(None, 6), TIMEOUT_MS);
}

#[test]
fn only_changed_buttons_are_drawn() {
    let mut bar = bar();
    let mut out = Vec::new();
    let first = bar.draw(false).unwrap();
    assert!(first.complete);
    assert_eq!(first.layer, 0);
    assert_eq!(first.items.len(), 3);
    assert_eq!(
        first.items[0],
        DrawItem { index: 0, span: 1, shade: Some(Shade::Black), partial: false }
    );
    assert!(bar.draw(false).is_none());
    bar.touch_down(&mut out, 0, Some(2));
    let second = bar.draw(true).unwrap();
    assert!(!second.complete);
    assert_eq!(
        second.items,
        vec![DrawItem { index: 2, span: 1, shade: Some(Shade::Active), partial: true }]
    );
    bar.touch_up(&mut out, 0);
    assert_eq!(bar.draw(true).unwrap().items[0].shade, Some(Shade::Inactive));
    assert!(bar.draw(true).is_none());
}

#[test]
fn a_new_layer_is_drawn_completely() {
    let mut bar = bar();
    let mut out = Vec::new();
    bar.draw(true);
    bar.apply_layer_selection(&mut out, 2, true);
    let drawing = bar.draw(true).unwrap();
    assert!(drawing.complete);
    assert_eq!(drawing.layer, 2);
    assert_eq!(bar.visible_buttons(), 2);
}

#[test]
fn dead_and_plain_buttons_have_no_box() {
    let mut layer = FunctionLayer {
        buttons: vec![
            dead_button(),
            Button::new_text("p".to_string(), Key { code: 30 }, false, None, None),
            key_button(KEY_MACRO1),
            command_button("ls"),
        ],
    };
    let items = layer.draw(true, true);
    let shades: Vec<Option<Shade>> = items.iter().map(|i| i.shade).collect();
    assert_eq!(shades, vec![None, None, None, Some(Shade::Inactive)]);
    layer.buttons[1].highlight(true);
    let items = layer.draw(true, false);
    assert_eq!(
        items,
        vec![DrawItem { index: 1, span: 1, shade: Some(Shade::Active), partial: true }]
    );
}

#[test]
fn layers_are_marked_for_drawing() {
    let mut all = layers();
    mark_layer_dirty(&mut all, 1);
    assert!(all[1].buttons.iter().all(|b| b.changed));
    assert!(all[0].buttons.iter().all(|b| !b.changed));
    mark_layer_dirty(&mut all, 9);
    mark_all_layers_dirty(&mut all);
    assert!(all.iter().all(|l| l.buttons.iter().all(|b| b.changed)));
}

#[test]
fn releasing_what_is_not_there_does_nothing() {
    let mut all = layers();
    let mut out = Vec::new();
    release_button(&mut out, &mut all, 9, 0);
    release_button(&mut out, &mut all, 0, 9);
    release_button(&mut out, &mut all, 0, 0);
    assert!(out.is_empty());
    all[0].buttons[0].set_active(&mut out, true);
    all[0].buttons[0].set_active(&mut out, true);
    assert_eq!(out, press(10));
    release_button(&mut out, &mut all, 0, 0);
    assert_eq!(out.len(), 4);
}
