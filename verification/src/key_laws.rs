//! What keys do: the Fn key, shortcuts and the macro keys, and which layer is
//! visible once they were used.

use crate::button::{ButtonView, InputEvent};
use crate::config;
use crate::config::{Config, FnMode};
use crate::keys;
use crate::session;
use crate::session::{BarView, KeyRules};
use crate::session_laws;
use crate::session_laws::BarEvent;
use crate::shortcut::{KeyboardModifiers, KeyboardShortcut, LayerShortcut};
use crate::touch_laws;
use vstd::prelude::*;

verus! {

/// The code of the Fn key.
pub open spec fn fn_code() -> u32 {
    464
}

/// The first or the second layer, as the toggle says.
pub open spec fn pair_layer(toggled: bool) -> usize {
    if toggled {
        1
    } else {
        0
    }
}

/// The layer that letting go of Fn leads back to: the chosen bar, else the
/// layer that the toggle shows.
pub proof fn what_fn_leads_back_to(s: BarView)
    ensures
        s.overlay_layer matches Some(bar) ==> s.baseline() == bar,
        s.overlay_layer is None ==> s.baseline() == pair_layer(s.fn_toggle_active),
{
}

/// The layer is visible, where it exists: then it is drawn completely, and the
/// touches have ended unless it was visible before. Where it does not exist,
/// all stays as it was.
pub open spec fn came_up(s: BarView, r: BarView, layer: usize) -> bool {
    if layer < s.layers.len() {
        &&& r.active_layer == layer
        &&& r.needs_complete_redraw
        &&& touch_laws::layer_marked(r, layer as int)
        &&& layer == s.active_layer ==> r.touches == s.touches
        &&& layer != s.active_layer ==> r.touches.len() == 0
    } else {
        stayed(s, r)
    }
}

/// Nothing came up.
pub open spec fn stayed(s: BarView, r: BarView) -> bool {
    &&& r.active_layer == s.active_layer
    &&& r.layers == s.layers
    &&& r.touches == s.touches
    &&& r.needs_complete_redraw == s.needs_complete_redraw
}

proof fn lemma_came_up(s: BarView, layer: usize, release: bool)
    requires
        s.active_layer < s.layers.len(),
    ensures
        release ==> came_up(s, s.showing(layer, release), layer),
        layer < s.layers.len() ==> touch_laws::layer_marked(
            s.showing(layer, release),
            layer as int,
        ),
{
    session::lemma_released_len(s.layers, s.touches);
    if layer < s.layers.len() {
        let r = s.showing(layer, release);
        assert forall|i: int| 0 <= i < r.layers[layer as int].len() implies (
        #[trigger] r.layers[layer as int][i]).changed by {}
    }
}

proof fn lemma_selects(s: BarView, layer: usize)
    requires
        s.active_layer < s.layers.len(),
    ensures
        ({
            let r = s.selecting(layer, true);
            &&& came_up(s, r, layer)
            &&& layer < s.layers.len() ==> touch_laws::has_selected(s, r, layer)
            &&& layer >= s.layers.len() ==> r == s
            &&& touch_laws::same_keyboard(s, r) && touch_laws::same_record(s, r)
        }),
{
    lemma_came_up(s.noting_selection(layer), layer, true);
}

/// A request from outside selects its layer, where that exists, and ends the
/// touches where another layer comes up by it. The keyboard and the record of
/// drawings are as before.
pub proof fn requests_select(s: BarView, layer: usize)
    requires
        s.wf(),
    ensures
        ({
            let r = session_laws::after(s, BarEvent::Control(layer));
            &&& came_up(s, r, layer)
            &&& layer < s.layers.len() ==> touch_laws::has_selected(s, r, layer)
            &&& layer >= s.layers.len() ==> r == s
            &&& touch_laws::same_keyboard(s, r) && touch_laws::same_record(s, r)
        }),
        s.refused(layer) == (if layer < s.layers.len() {
            None
        } else {
            Some(layer)
        }),
        session_laws::sent_by(s, BarEvent::Control(layer)) == (if layer < s.layers.len() && layer
            != s.active_layer {
            session_laws::sent_by(s, BarEvent::Cancel)
        } else {
            Seq::empty()
        }),
{
    lemma_selects(s, layer);
}

/// A layer can also be shown without being selected: then the chosen bar and
/// the toggle are as before, and the touches end only where that is asked for.
pub proof fn showing_is_not_selecting(s: BarView, layer: usize, release: bool)
    requires
        s.wf(),
    ensures
        ({
            let r = s.showing(layer, release);
            &&& release ==> came_up(s, r, layer)
            &&& !release ==> r.touches == s.touches
            &&& layer < s.layers.len() ==> r.active_layer == layer && r.needs_complete_redraw
            &&& layer >= s.layers.len() ==> r == s
            &&& r.overlay_layer == s.overlay_layer
            &&& r.fn_toggle_active == s.fn_toggle_active
            &&& touch_laws::same_keyboard(s, r) && touch_laws::same_record(s, r)
        }),
{
    lemma_came_up(s, layer, release);
}

/// Pressing Fn, in whatever way it works, is noted with its time, and no
/// shortcut was used yet. It shows the Fn layer; where it works as a toggle it
/// flips the toggle and shows the layer of that. The chosen bar, the modifiers
/// and the record of drawings are as before.
pub proof fn pressing_fn(
    s: BarView,
    rules: KeyRules,
    now: u64,
    redraw_hit: bool,
    layer_hit: Option<usize>,
)
    requires
        s.wf(),
    ensures
        ({
            let r = session_laws::after(
                s,
                BarEvent::Key(rules, fn_code(), true, now, redraw_hit, layer_hit),
            );
            let toggles = rules.fn_mode == FnMode::Toggle;
            let target = pair_layer(!toggles || !s.fn_toggle_active);
            &&& r.fn_pressed
            &&& r.fn_pressed_at == Some(now)
            &&& !r.fn_shortcut_used
            &&& r.fn_toggle_active == (s.fn_toggle_active != toggles)
            &&& came_up(s, r, target)
            &&& r.overlay_layer == s.overlay_layer
            &&& r.keyboard_modifiers == s.keyboard_modifiers
            &&& touch_laws::same_record(s, r)
            &&& s.refused_by_key(rules, fn_code(), true, now, redraw_hit, layer_hit) == s.refused(
                target,
            )
        }),
{
    let toggles = rules.fn_mode == FnMode::Toggle;
    let t = BarView {
        fn_pressed: true,
        fn_pressed_at: Some(now),
        fn_shortcut_used: false,
        fn_toggle_active: s.fn_toggle_active != toggles,
        ..s
    };
    lemma_came_up(t, pair_layer(!toggles || !s.fn_toggle_active), true);
}

/// The press of Fn that began then was a quick tap.
pub open spec fn tapped(began: Option<u64>, now: u64, ms: u64) -> bool {
    match began {
        Some(start) => now <= start + ms * 1_000_000,
        None => ms == 18_446_744_073_709_551_615,
    }
}

/// Letting go of Fn ends its press. Where a shortcut was used meanwhile, or
/// where Fn works as a toggle, all else stays as it was. Else a tap, where Fn
/// works that way, flips the toggle and shows the layer of that; a longer
/// press, and any press where Fn is to be held, leads back to the chosen bar,
/// or to the layer that the toggle shows.
pub proof fn letting_go_of_fn(
    s: BarView,
    rules: KeyRules,
    now: u64,
    redraw_hit: bool,
    layer_hit: Option<usize>,
)
    requires
        s.wf(),
    ensures
        ({
            let r = session_laws::after(
                s,
                BarEvent::Key(rules, fn_code(), false, now, redraw_hit, layer_hit),
            );
            let refused = s.refused_by_key(rules, fn_code(), false, now, redraw_hit, layer_hit);
            let flips = rules.fn_mode == FnMode::Smart && tapped(
                s.fn_pressed_at,
                now,
                rules.fn_toggle_press_ms,
            );
            let back = match s.overlay_layer {
                Some(bar) => bar,
                None => pair_layer(s.fn_toggle_active),
            };
            &&& !r.fn_pressed
            &&& r.fn_pressed_at is None
            &&& !r.fn_shortcut_used
            &&& r.overlay_layer == s.overlay_layer
            &&& r.keyboard_modifiers == s.keyboard_modifiers
            &&& touch_laws::same_record(s, r)
            &&& if s.fn_shortcut_used || rules.fn_mode == FnMode::Toggle {
                stayed(s, r) && r.fn_toggle_active == s.fn_toggle_active && refused is None
            } else if flips {
                &&& r.fn_toggle_active == !s.fn_toggle_active
                &&& came_up(s, r, pair_layer(!s.fn_toggle_active))
                &&& refused == s.refused(pair_layer(!s.fn_toggle_active))
            } else {
                &&& r.fn_toggle_active == s.fn_toggle_active
                &&& came_up(s, r, back)
                &&& refused == s.refused(back)
            }
        }),
{
    let t = BarView {
        fn_pressed: false,
        fn_toggle_active: s.fn_toggle_active != s.tap_flips(rules, now),
        ..s
    };
    assert(s.tap_flips(rules, now) == (!s.fn_shortcut_used && rules.fn_mode == FnMode::Smart
        && tapped(s.fn_pressed_at, now, rules.fn_toggle_press_ms)));
    if let Some(layer) = s.fn_up_target(rules, now) {
        lemma_came_up(t, layer, true);
    }
}

/// The layer that a macro key selects: the first shows the media keys, the
/// other two the bars behind the first pair.
pub open spec fn macro_layer(key: u32, media_first: bool) -> Option<usize> {
    if key == 656 {
        Some(pair_layer(!media_first))
    } else if key == 657 {
        Some(2)
    } else if key == 658 {
        Some(3)
    } else {
        None
    }
}

/// Letting go of a key other than Fn changes nothing but the modifiers.
pub proof fn letting_go_of_a_key(
    s: BarView,
    rules: KeyRules,
    key: u32,
    now: u64,
    redraw_hit: bool,
    layer_hit: Option<usize>,
)
    requires
        key != fn_code(),
    ensures
        ({
            let r = session_laws::after(
                s,
                BarEvent::Key(rules, key, false, now, redraw_hit, layer_hit),
            );
            &&& stayed(s, r) && touch_laws::same_selection(s, r) && touch_laws::same_record(s, r)
            &&& r.fn_pressed == s.fn_pressed && r.fn_pressed_at == s.fn_pressed_at
            &&& r.fn_shortcut_used == s.fn_shortcut_used
            &&& r.keyboard_modifiers == s.keyboard_modifiers.updated(key, false)
        }),
        session_laws::sent_by(s, BarEvent::Key(rules, key, false, now, redraw_hit, layer_hit))
            == Seq::<InputEvent>::empty(),
        s.refused_by_key(rules, key, false, now, redraw_hit, layer_hit) is None,
{
}

/// The shortcut for drawing everything marks every button of every layer and
/// asks for a complete drawing; the highlights, the visible layer and the
/// touches are as before, and no layer is selected by the same key.
pub proof fn redraw_shortcut_marks_all(
    s: BarView,
    rules: KeyRules,
    key: u32,
    now: u64,
    layer_hit: Option<usize>,
)
    requires
        key != fn_code(),
    ensures
        ({
            let r = session_laws::after(s, BarEvent::Key(rules, key, true, now, true, layer_hit));
            &&& r.needs_complete_redraw
            &&& r.layers.len() == s.layers.len()
            &&& forall|l: int, b: int|
                session::button_at(s.layers, l, b) ==> session::button_at(r.layers, l, b)
                    && #[trigger] r.layers[l][b] == (ButtonView { changed: true, ..s.layers[l][b] })
            &&& r.touches == s.touches
            &&& touch_laws::same_selection(s, r) && touch_laws::same_record(s, r)
            &&& r.fn_pressed == s.fn_pressed && r.fn_pressed_at == s.fn_pressed_at
            &&& r.fn_shortcut_used == s.fn_shortcut_used
            &&& r.keyboard_modifiers == s.keyboard_modifiers.updated(key, true)
        }),
        session_laws::sent_by(s, BarEvent::Key(rules, key, true, now, true, layer_hit))
            == Seq::<InputEvent>::empty(),
        s.refused_by_key(rules, key, true, now, true, layer_hit) is None,
{
}

/// A key that completes no shortcut for drawing selects the layer of its
/// shortcut, or else that of a macro key. Only a layer shortcut counts as one
/// that Fn was held for: any other key leaves that as it was. A key with
/// neither changes nothing but the modifiers.
pub proof fn keys_select(
    s: BarView,
    rules: KeyRules,
    key: u32,
    now: u64,
    layer_hit: Option<usize>,
)
    requires
        s.wf(),
        key != fn_code(),
    ensures
        ({
            let event = BarEvent::Key(rules, key, true, now, false, layer_hit);
            let r = session_laws::after(s, event);
            let refused = s.refused_by_key(rules, key, true, now, false, layer_hit);
            let target = if layer_hit is Some {
                layer_hit
            } else {
                macro_layer(key, rules.media_layer_default)
            };
            &&& r.fn_shortcut_used == (s.fn_shortcut_used || layer_hit is Some)
            &&& r.fn_pressed == s.fn_pressed && r.fn_pressed_at == s.fn_pressed_at
            &&& r.keyboard_modifiers == s.keyboard_modifiers.updated(key, true)
            &&& touch_laws::same_record(s, r)
            &&& match target {
                Some(layer) => {
                    &&& came_up(s, r, layer)
                    &&& layer < s.layers.len() ==> touch_laws::has_selected(s, r, layer)
                    &&& layer >= s.layers.len() ==> touch_laws::same_selection(s, r)
                    &&& refused == s.refused(layer)
                },
                None => {
                    &&& stayed(s, r)
                    &&& touch_laws::same_selection(s, r)
                    &&& refused is None
                },
            }
        }),
{
    let t = BarView {
        keyboard_modifiers: s.keyboard_modifiers.updated(key, true),
        fn_shortcut_used: s.fn_shortcut_used || layer_hit is Some,
        ..s
    };
    if let Some(layer) = BarView::key_target(rules, key, layer_hit) {
        lemma_selects(t, layer);
    }
}

/// A key sends nothing of its own: where another layer comes up by it, all
/// touches let go, and else nothing is sent.
pub proof fn keys_only_end_touches(
    s: BarView,
    rules: KeyRules,
    key: u32,
    pressed: bool,
    now: u64,
    redraw_hit: bool,
    layer_hit: Option<usize>,
)
    requires
        s.wf(),
    ensures
        ({
            let event = BarEvent::Key(rules, key, pressed, now, redraw_hit, layer_hit);
            let r = session_laws::after(s, event);
            session_laws::sent_by(s, event) == (if r.active_layer != s.active_layer {
                session_laws::sent_by(s, BarEvent::Cancel)
            } else {
                Seq::empty()
            })
        }),
{
    session::lemma_released_len(s.layers, s.touches);
}

/// Whether a layer shortcut was used since Fn went down: pressing and letting
/// go of Fn and a new configuration start over, a layer shortcut is one, and
/// nothing else counts.
pub proof fn only_layer_shortcuts_are_used(s: BarView, event: BarEvent)
    ensures
        session_laws::after(s, event).fn_shortcut_used == (match event {
            BarEvent::Key(_, key, pressed, _, redraw_hit, layer_hit) => if key == fn_code() {
                false
            } else if pressed && !redraw_hit && layer_hit is Some {
                true
            } else {
                s.fn_shortcut_used
            },
            BarEvent::Reload(_) => false,
            _ => s.fn_shortcut_used,
        }),
{
    if let BarEvent::TouchDown(slot, hit) = event {
        let t = s.lifted(slot);
        assert(t.fn_shortcut_used == s.fn_shortcut_used);
    }
}

/// The event is a key other than Fn that completes no layer shortcut.
pub open spec fn plain_key(event: BarEvent) -> bool {
    event matches BarEvent::Key(_, key, _, _, _, layer_hit) && key != fn_code() && layer_hit is None
}

/// The event is a key that selects nothing.
pub open spec fn idle_key(event: BarEvent) -> bool {
    &&& plain_key(event)
    &&& event matches BarEvent::Key(_, key, _, _, _, _) && macro_layer(key, true) is None
}

proof fn lemma_plain_keys(s: BarView, history: Seq<BarEvent>)
    requires
        s.wf(),
        !s.fn_shortcut_used,
        forall|i: int| 0 <= i < history.len() ==> plain_key(#[trigger] history[i]),
    ensures
        ({
            let r = session_laws::after_all(s, history);
            &&& r.wf()
            &&& !r.fn_shortcut_used
            &&& r.layers.len() == s.layers.len()
            &&& r.fn_pressed_at == s.fn_pressed_at
            &&& (forall|i: int| 0 <= i < history.len() ==> idle_key(#[trigger] history[i]))
                ==> touch_laws::same_selection(s, r)
        }),
    decreases history.len(),
{
    if history.len() > 0 {
        let head = history.drop_last();
        assert forall|i: int| 0 <= i < head.len() implies plain_key(#[trigger] head[i]) by {
            assert(head[i] == history[i]);
        }
        lemma_plain_keys(s, head);
        let before = session_laws::after_all(s, head);
        let event = history.last();
        assert(event == history[history.len() - 1]);
        session_laws::event_keeps_wf(before, event);
        session_laws::event_keeps_buttons(before, event);
        only_layer_shortcuts_are_used(before, event);
        if forall|i: int| 0 <= i < history.len() ==> idle_key(#[trigger] history[i]) {
            assert forall|i: int| 0 <= i < head.len() implies idle_key(#[trigger] head[i]) by {
                assert(head[i] == history[i]);
            }
            assert(idle_key(event));
        }
    }
}

/// Holding Fn while other keys are typed, none of which completes a layer
/// shortcut, leads back all the same once Fn is let go: to the chosen bar, or
/// the layer that the toggle shows. Unless a macro key selected another, that is
/// where holding Fn began.
pub proof fn typing_while_fn_is_held(
    s: BarView,
    rules: KeyRules,
    t0: u64,
    t1: u64,
    typed: Seq<BarEvent>,
)
    requires
        s.wf(),
        rules.fn_mode == FnMode::Hold,
        forall|i: int| 0 <= i < typed.len() ==> plain_key(#[trigger] typed[i]),
    ensures
        ({
            let down = session_laws::after(
                s,
                BarEvent::Key(rules, fn_code(), true, t0, false, None),
            );
            let end = session_laws::after_all(down, typed);
            let up = session_laws::after(
                end,
                BarEvent::Key(rules, fn_code(), false, t1, false, None),
            );
            &&& end.baseline() < s.layers.len() ==> up.active_layer == end.baseline()
            &&& (forall|i: int| 0 <= i < typed.len() ==> idle_key(#[trigger] typed[i])) && s.baseline()
                < s.layers.len() ==> up.active_layer == s.baseline()
        }),
{
    let press = BarEvent::Key(rules, fn_code(), true, t0, false, None);
    let down = session_laws::after(s, press);
    pressing_fn(s, rules, t0, false, None);
    session_laws::event_keeps_wf(s, press);
    session_laws::event_keeps_buttons(s, press);
    lemma_plain_keys(down, typed);
    letting_go_of_fn(session_laws::after_all(down, typed), rules, t1, false, None);
}

/// The chosen bar is lost to nothing but the selection of another layer and a
/// new configuration: Fn, other keys, fingers that lift and drawing leave it.
pub proof fn chosen_bar_stays(s: BarView, event: BarEvent)
    requires
        match event {
            BarEvent::Key(_, key, pressed, _, redraw_hit, layer_hit) => key == fn_code() || !pressed
                || redraw_hit || (layer_hit is None && macro_layer(key, true) is None),
            BarEvent::TouchDown(_, hit) => hit is None,
            BarEvent::Control(layer) => layer >= s.layers.len(),
            BarEvent::Reload(_) => false,
            _ => true,
        },
    ensures
        session_laws::after(s, event).overlay_layer == s.overlay_layer,
{
}

/// Modifiers follow their keys, left or right: each is held once its key went
/// down and no more once it went up, and other keys do not matter.
pub proof fn modifiers_follow_keys(m: KeyboardModifiers, key: u32, pressed: bool)
    ensures
        ({
            let r = m.updated(key, pressed);
            &&& r.ctrl == (if key == 29 || key == 97 {
                pressed
            } else {
                m.ctrl
            })
            &&& r.alt == (if key == 56 || key == 100 {
                pressed
            } else {
                m.alt
            })
            &&& r.shift == (if key == 42 || key == 54 {
                pressed
            } else {
                m.shift
            })
            &&& r.super_key == (if key == 125 || key == 126 {
                pressed
            } else {
                m.super_key
            })
        }),
{
}

/// The state is as asked for, or it does not matter.
pub open spec fn as_asked(asked: Option<bool>, state: bool) -> bool {
    asked is None || asked == Some(state)
}

/// What a shortcut asks of the Fn key and the modifiers is the case; `needs_fn`
/// tells whether Fn is needed where the shortcut does not speak of it.
pub open spec fn asked_for(
    shortcut: KeyboardShortcut,
    fn_pressed: bool,
    m: KeyboardModifiers,
    needs_fn: bool,
) -> bool {
    &&& as_asked(shortcut.require_fn, fn_pressed)
    &&& shortcut.require_fn is None && needs_fn ==> fn_pressed
    &&& as_asked(shortcut.ctrl, m.ctrl)
    &&& as_asked(shortcut.alt, m.alt)
    &&& as_asked(shortcut.shift, m.shift)
    &&& as_asked(shortcut.super_key, m.super_key)
}

/// A shortcut is hit by its key alone, and only while what it asks for is the
/// case. Its key is the one with its code where it has a code, whatever its
/// name; else the one with its name.
pub proof fn what_hits_a_shortcut(
    shortcut: KeyboardShortcut,
    named: Option<keys::Key>,
    key: u32,
    fn_pressed: bool,
    m: KeyboardModifiers,
    needs_fn: bool,
)
    ensures
        shortcut.hit_by(named, key, fn_pressed, m, needs_fn) == (asked_for(
            shortcut,
            fn_pressed,
            m,
            needs_fn,
        ) && (shortcut.code == Some(key) || (shortcut.code is None && named is Some
            && named->0.code == key))),
{
}

/// A layer shortcut is hit as a plain one with the same key and conditions is
/// that needs Fn unless it says otherwise.
pub proof fn what_hits_a_layer_shortcut(
    shortcut: LayerShortcut,
    named: Option<keys::Key>,
    key: u32,
    fn_pressed: bool,
    m: KeyboardModifiers,
)
    ensures
        ({
            let plain = shortcut.as_shortcut();
            &&& plain.key == shortcut.key && plain.code == shortcut.code
            &&& plain.require_fn == shortcut.require_fn
            &&& plain.ctrl == shortcut.ctrl && plain.alt == shortcut.alt
            &&& plain.shift == shortcut.shift && plain.super_key == shortcut.super_key
            &&& shortcut.hit_by(named, key, fn_pressed, m) == (asked_for(
                plain,
                fn_pressed,
                m,
                true,
            ) && (shortcut.code == Some(key) || (shortcut.code is None && named is Some
                && named->0.code == key)))
        }),
{
}

/// The name of a shortcut stands for the key of that name.
pub proof fn shortcut_names_are_key_names(shortcut: KeyboardShortcut)
    ensures
        shortcut.key is None ==> shortcut.named_key() is None,
        shortcut.key matches Some(name) ==> shortcut.named_key() == keys::key_named(name@),
{
}

/// The shortcut is completed by this key, in this state of the keyboard.
pub open spec fn completed_by(
    shortcut: KeyboardShortcut,
    key: u32,
    fn_pressed: bool,
    m: KeyboardModifiers,
    needs_fn: bool,
) -> bool {
    &&& asked_for(shortcut, fn_pressed, m, needs_fn)
    &&& match shortcut.code {
        Some(code) => code == key,
        None => shortcut.key matches Some(name) && keys::key_named(name@) matches Some(k) && k.code
            == key,
    }
}

/// The shortcut for drawing everything needs Fn only where it says so, and sees
/// the modifiers as they are once the key went down or up.
pub proof fn when_the_redraw_shortcut_is_hit(s: BarView, cfg: Config, key: u32, pressed: bool)
    ensures
        s.redraw_hit(cfg, key, pressed) == completed_by(
            cfg.redraw_shortcut,
            key,
            s.fn_pressed,
            s.keyboard_modifiers.updated(key, pressed),
            false,
        ),
{
}

/// How much the conditions of a shortcut count: 64 for one on Fn, 16 for each
/// on another modifier, 8 for a key name.
pub open spec fn weight(shortcut: LayerShortcut) -> int {
    (if shortcut.require_fn is Some {
        64int
    } else {
        0
    }) + (if shortcut.key is Some {
        8int
    } else {
        0
    }) + 16 * ((if shortcut.ctrl is Some {
        1int
    } else {
        0
    }) + (if shortcut.alt is Some {
        1int
    } else {
        0
    }) + (if shortcut.shift is Some {
        1int
    } else {
        0
    }) + (if shortcut.super_key is Some {
        1int
    } else {
        0
    }))
}

/// Among shortcuts that are hit at once, the one whose conditions count most
/// goes first, each higher layer counting one more.
pub proof fn priority_is_weight_and_layer(shortcut: LayerShortcut)
    requires
        shortcut.layer + 136 < 0x1_0000_0000,
    ensures
        shortcut.priority() == weight(shortcut) + shortcut.layer,
{
}

/// For any layer the priority is that sum as far as 32 bits hold it.
pub proof fn priority_wraps(shortcut: LayerShortcut)
    ensures
        0 <= shortcut.priority() < 0x1_0000_0000,
        (weight(shortcut) + shortcut.layer - shortcut.priority()) % 0x1_0000_0000 == 0,
{
}

/// The layer shortcut with this index is completed by this key.
pub open spec fn completes(
    all: Seq<LayerShortcut>,
    i: int,
    key: u32,
    fn_pressed: bool,
    m: KeyboardModifiers,
) -> bool {
    0 <= i < all.len() && completed_by(all[i].as_shortcut(), key, fn_pressed, m, true)
}

proof fn lemma_hits(all: Seq<LayerShortcut>, key: u32, fn_pressed: bool, m: KeyboardModifiers)
    ensures
        forall|i: int|
            0 <= i < all.len() ==> #[trigger] config::shortcut_hits(all, key, fn_pressed, m)[i]
                == completes(all, i, key, fn_pressed, m),
{
}

/// None of the shortcuts that the key completes goes before this one: all
/// others have a lower priority, or the same and stand before it.
pub open spec fn goes_first(
    all: Seq<LayerShortcut>,
    i: int,
    key: u32,
    fn_pressed: bool,
    m: KeyboardModifiers,
) -> bool {
    &&& completes(all, i, key, fn_pressed, m)
    &&& forall|j: int| #[trigger]
        completes(all, j, key, fn_pressed, m) ==> all[j].priority() < all[i].priority() || (
        all[j].priority() == all[i].priority() && j <= i)
}

/// The layer that a key selects by shortcuts is that of the one that goes first
/// among those which the key completes, in the state of the keyboard once the
/// key went down or up. Where it completes none, none is selected.
pub proof fn the_best_shortcut_selects(s: BarView, cfg: Config, key: u32, pressed: bool)
    ensures
        ({
            let all = cfg.layer_shortcuts@;
            let m = s.keyboard_modifiers.updated(key, pressed);
            match s.layer_hit(cfg, key, pressed) {
                Some(layer) => exists|i: int| #[trigger]
                    goes_first(all, i, key, s.fn_pressed, m) && all[i].layer == layer,
                None => forall|j: int| !#[trigger] completes(all, j, key, s.fn_pressed, m),
            }
        }),
{
    let all = cfg.layer_shortcuts@;
    let m = s.keyboard_modifiers.updated(key, pressed);
    let hits = config::shortcut_hits(all, key, s.fn_pressed, m);
    config::best_shortcut_is_best(all, hits);
    lemma_hits(all, key, s.fn_pressed, m);
    match config::best_shortcut(all, hits) {
        Some(i) => {
            assert(hits[i]);
            assert forall|j: int| #[trigger] completes(all, j, key, s.fn_pressed, m) implies all[j]
                .priority() < all[i].priority() || (all[j].priority() == all[i].priority() && j
                <= i) by {
                assert(hits[j]);
            }
            assert(goes_first(all, i, key, s.fn_pressed, m));
        },
        None => {
            assert forall|j: int| !#[trigger] completes(all, j, key, s.fn_pressed, m) by {
                if 0 <= j < all.len() {
                    assert(!hits[j]);
                }
            }
        },
    }
}

/// A key is handled by the options of the configuration for it.
pub proof fn key_rules_are_options(cfg: Config)
    ensures
        session::key_rules(cfg).fn_mode == cfg.fn_mode,
        session::key_rules(cfg).fn_toggle_press_ms == cfg.fn_toggle_press_ms,
        session::key_rules(cfg).media_layer_default == cfg.media_layer_default,
{
}

/// Without a shortcut in the files everything is drawn again by the comma key
/// while Fn and Shift are held, whatever the other modifiers, and not while one
/// of the two is not.
pub proof fn default_redraw_shortcut_is_fn_shift_comma(
    key: u32,
    fn_pressed: bool,
    m: KeyboardModifiers,
)
    ensures
        completed_by(config::redraw_default(), key, fn_pressed, m, false) == (key == 51
            && fn_pressed && m.shift),
{
}

} // verus!
