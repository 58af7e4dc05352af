//! What fingers do: which button a touch rests on, what is lit, what is sent,
//! and what is due to be drawn.

use crate::button::{ButtonView, InputEvent};
use crate::command_laws;
use crate::session;
use crate::session::{BarView, TouchView};
use crate::session_laws;
use crate::session_laws::BarEvent;
use vstd::prelude::*;

verus! {

/// The report that ends a group of events.
pub open spec fn report() -> InputEvent {
    InputEvent { kind: 0, code: 0, value: 0 }
}

/// The events that let go of a key.
pub open spec fn release_of(code: u16) -> Seq<InputEvent> {
    seq![InputEvent { kind: 1, code, value: 0 }, report()]
}

/// The events that press a key and let go of it at once.
pub open spec fn tap_of(code: u16) -> Seq<InputEvent> {
    seq![InputEvent { kind: 1, code, value: 1 }, report()] + release_of(code)
}

/// The button has a key to send: it is not the one of buttons without an
/// action, nor that of clocks.
pub open spec fn has_key(b: ButtonView) -> bool {
    b.action.code != 240 && b.action.code != 359
}

/// Touching the button does something.
pub open spec fn reacts(b: ButtonView) -> bool {
    has_key(b) || b.command is Some || b.switch_to_layer is Some
}

/// The visible layer, the chosen bar and the toggle are as before.
pub open spec fn same_selection(s: BarView, r: BarView) -> bool {
    &&& r.active_layer == s.active_layer
    &&& r.overlay_layer == s.overlay_layer
    &&& r.fn_toggle_active == s.fn_toggle_active
}

/// What is known of the keyboard is as before.
pub open spec fn same_keyboard(s: BarView, r: BarView) -> bool {
    &&& r.fn_pressed == s.fn_pressed
    &&& r.fn_pressed_at == s.fn_pressed_at
    &&& r.fn_shortcut_used == s.fn_shortcut_used
    &&& r.keyboard_modifiers == s.keyboard_modifiers
}

/// What is known of earlier drawings is as before.
pub open spec fn same_record(s: BarView, r: BarView) -> bool {
    &&& r.last_drawn_layer == s.last_drawn_layer
    &&& r.last_redraw_minute == s.last_redraw_minute
}

/// Every button of the layer is marked for drawing.
pub open spec fn layer_marked(r: BarView, layer: int) -> bool {
    forall|i: int| 0 <= i < r.layers[layer].len() ==> (#[trigger] r.layers[layer][i]).changed
}

/// The layer was selected: it is visible and to be drawn, and it is what
/// letting go of Fn leads back to. A layer from the third on stays up as a bar
/// of its own; the first two end that and set the toggle.
pub open spec fn has_selected(s: BarView, r: BarView, layer: usize) -> bool {
    &&& r.active_layer == layer
    &&& r.needs_complete_redraw
    &&& layer_marked(r, layer as int)
    &&& r.baseline() == layer
    &&& layer >= 2 ==> r.overlay_layer == Some(layer) && r.fn_toggle_active == s.fn_toggle_active
    &&& layer <= 1 ==> r.overlay_layer is None && r.fn_toggle_active == (layer == 1)
}

/// A touch that rests on this button, in this slot.
pub open spec fn slot_rests_on(s: BarView, slot: u32, layer: int, button: int) -> bool {
    exists|i: int|
        0 <= i < s.touches.len() && (#[trigger] s.touches[i]).0 == slot && session::rests_on(
            s.touches[i].1,
            layer,
            button,
        )
}

/// The state at the start: the first layer is visible and to be drawn, nothing
/// is touched, chosen or pressed.
pub proof fn the_start(layers: Seq<Seq<ButtonView>>, minute: u32)
    ensures
        ({
            let s = BarView::initial(layers, minute);
            &&& s.layers == layers
            &&& s.touches.len() == 0
            &&& s.active_layer == 0
            &&& s.overlay_layer is None
            &&& !s.fn_toggle_active && !s.fn_pressed && !s.fn_shortcut_used
            &&& s.fn_pressed_at is None
            &&& !s.keyboard_modifiers.ctrl && !s.keyboard_modifiers.alt
            &&& !s.keyboard_modifiers.shift && !s.keyboard_modifiers.super_key
            &&& s.baseline() == 0
            &&& s.drawing_due() && s.complete_drawing()
            &&& s.last_drawn_layer == usize::MAX
            &&& s.last_redraw_minute == minute
        }),
{
}

proof fn lemma_place(s: BarView, slot: u32, i: int)
    requires
        s.wf(),
        0 <= i < s.touches.len(),
        s.touches[i].0 == slot,
    ensures
        session::slot_place(s.touches, slot) == Some(i),
{
    let j = session::slot_place(s.touches, slot)->0;
    assert(s.touches[j].0 == slot);
}

proof fn lemma_slot_rests(s: BarView, slot: u32, l: int, b: int)
    requires
        s.wf(),
    ensures
        slot_rests_on(s, slot, l, b) == (command_laws::touch_in(s, slot) matches Some(t)
            && session::rests_on(t, l, b)),
{
    if slot_rests_on(s, slot, l, b) {
        let i = choose|i: int|
            0 <= i < s.touches.len() && (#[trigger] s.touches[i]).0 == slot && session::rests_on(
                s.touches[i].1,
                l,
                b,
            );
        lemma_place(s, slot, i);
    }
    if let Some(t) = command_laws::touch_in(s, slot) {
        let i = session::slot_place(s.touches, slot)->0;
        assert(s.touches[i].0 == slot && s.touches[i].1 == t);
    }
}

/// The finger of a slot lifts: its touch is gone and its button goes out and
/// is to be drawn where it was lit; every other touch and button, the visible
/// layer and what is known of the keyboard are as before.
pub proof fn lifting_ends_one_touch(s: BarView, slot: u32, other: u32, l: int, b: int)
    requires
        s.wf(),
        session::button_at(s.layers, l, b),
    ensures
        ({
            let r = session_laws::after(s, BarEvent::TouchUp(slot));
            let out = slot_rests_on(s, slot, l, b) && s.layers[l][b].active;
            &&& command_laws::touch_in(r, slot) is None
            &&& other != slot ==> command_laws::touch_in(r, other) == command_laws::touch_in(
                s,
                other,
            )
            &&& r.touches.len() == (if command_laws::touch_in(s, slot) is Some {
                s.touches.len() - 1
            } else {
                s.touches.len() as int
            })
            &&& session::button_at(r.layers, l, b)
            &&& r.layers[l][b] == (ButtonView {
                active: s.layers[l][b].active && !out,
                changed: s.layers[l][b].changed || out,
                ..s.layers[l][b]
            })
            &&& r.needs_complete_redraw == s.needs_complete_redraw
            &&& same_selection(s, r) && same_keyboard(s, r) && same_record(s, r)
        }),
{
    command_laws::event_keeps_touch(s, BarEvent::TouchUp(slot), slot);
    command_laws::event_keeps_touch(s, BarEvent::TouchUp(slot), other);
    lemma_slot_rests(s, slot, l, b);
}

/// Lifting a finger lets go of the key of the button under it, where that
/// button is lit and has a key, hands back the command of its touch, and sends
/// nothing else.
pub proof fn lifting_lets_go(s: BarView, slot: u32, touch: TouchView)
    requires
        s.wf(),
        command_laws::touch_in(s, slot) == Some(touch),
        session::button_at(s.layers, touch.layer as int, touch.button as int),
    ensures
        ({
            let b = s.layers[touch.layer as int][touch.button as int];
            session_laws::sent_by(s, BarEvent::TouchUp(slot)) == (if b.active && has_key(b) {
                release_of(b.action.code)
            } else {
                Seq::empty()
            })
        }),
        s.lifted_command(slot) == touch.command,
{
}

/// Lifting a finger that touches nothing sends nothing and runs nothing.
pub proof fn lifting_nothing(s: BarView, slot: u32)
    requires
        command_laws::touch_in(s, slot) is None,
    ensures
        session_laws::after(s, BarEvent::TouchUp(slot)) == s,
        session_laws::sent_by(s, BarEvent::TouchUp(slot)) == Seq::<InputEvent>::empty(),
        s.lifted_command(slot) is None,
{
}

/// A button that a finger presses and that switches to a layer selects this
/// layer, where it exists; where it does not, the layer is refused. A button
/// that switches to none leaves the visible layer, the chosen bar and the
/// toggle as they are.
pub proof fn touched_layer_is_selected(s: BarView, slot: u32, button: u32)
    requires
        s.wf(),
        button < s.layers[s.active_layer as int].len(),
    ensures
        ({
            let target = s.layers[s.active_layer as int][button as int].switch_to_layer;
            let r = session_laws::after(s, BarEvent::TouchDown(slot, Some(button)));
            let refused = s.refused_by_touch(slot, Some(button));
            let as_before = same_selection(s, r) && r.needs_complete_redraw
                == s.needs_complete_redraw;
            &&& match target {
                Some(l) => if l < s.layers.len() {
                    has_selected(s, r, l) && refused is None
                } else {
                    as_before && refused == Some(l)
                },
                None => as_before && refused is None,
            }
            &&& same_keyboard(s, r) && same_record(s, r)
        }),
{
}

/// A finger beside the buttons ends the touch of its slot, as lifting does, and
/// does nothing else.
pub proof fn touching_beside_the_buttons(s: BarView, slot: u32)
    ensures
        session_laws::after(s, BarEvent::TouchDown(slot, None)) == session_laws::after(
            s,
            BarEvent::TouchUp(slot),
        ),
        session_laws::sent_by(s, BarEvent::TouchDown(slot, None)) == session_laws::sent_by(
            s,
            BarEvent::TouchUp(slot),
        ),
        s.refused_by_touch(slot, None) is None,
{
    assert(s.lifted_events(slot) + Seq::<InputEvent>::empty() =~= s.lifted_events(slot));
}

/// A finger on a button that reacts rests on it and holds its command until it
/// lifts; on any other button it rests on nothing. The touches of other
/// fingers stay as they are.
pub proof fn touching_begins_a_touch(s: BarView, slot: u32, button: u32, other: u32)
    requires
        s.wf(),
        button < s.layers[s.active_layer as int].len(),
    ensures
        ({
            let b = s.layers[s.active_layer as int][button as int];
            let r = session_laws::after(s, BarEvent::TouchDown(slot, Some(button)));
            &&& command_laws::touch_in(r, slot) == (if reacts(b) {
                Some(TouchView { layer: s.active_layer, button, command: b.command })
            } else {
                None
            })
            &&& other != slot ==> command_laws::touch_in(r, other) == command_laws::touch_in(
                s,
                other,
            )
        }),
{
    command_laws::touch_down_begins(s, slot, Some(button));
    if other != slot {
        command_laws::event_keeps_touch(s, BarEvent::TouchDown(slot, Some(button)), other);
    }
}

proof fn lemma_pressing_lights(t: BarView, slot: u32, button: u32, l: int, i: int)
    requires
        t.active_layer < t.layers.len(),
        button < t.layers[t.active_layer as int].len(),
        session::button_at(t.layers, l, i),
    ensures
        ({
            let r = t.pressing(slot, button);
            let before = t.layers[l][i];
            let pressed = l == t.active_layer && i == button;
            let shown = t.layers[t.active_layer as int][button as int].switch_to_layer matches Some(
                layer,
            ) && layer == l;
            &&& session::button_at(r.layers, l, i)
            &&& r.layers[l][i].active == (pressed || before.active)
            &&& r.layers[l][i].changed == (before.changed || (pressed && !before.active) || shown)
        }),
{
    let lit = BarView {
        layers: session::with_highlight(t.layers, t.active_layer as int, button as int, true),
        ..t
    };
    assert(lit.layers[l].len() == t.layers[l].len());
    if l != t.active_layer || i != button {
        assert(lit.layers[l][i] == t.layers[l][i]);
    }
}

/// What a finger coming down lights: the button that it presses, where that
/// reacts. The button that it rested on before goes out, and all other buttons
/// stay lit or dark. Whatever changes is to be drawn, and so is all of a layer
/// that comes up.
pub proof fn touching_lights_the_button(s: BarView, slot: u32, button: u32, l: int, i: int)
    requires
        s.wf(),
        button < s.layers[s.active_layer as int].len(),
        session::button_at(s.layers, l, i),
    ensures
        ({
            let b = s.layers[s.active_layer as int][button as int];
            let before = s.layers[l][i];
            let r = session_laws::after(s, BarEvent::TouchDown(slot, Some(button)));
            let pressed = reacts(b) && l == s.active_layer && i == button;
            let left = slot_rests_on(s, slot, l, i);
            let shown = b.switch_to_layer matches Some(layer) && layer == l;
            &&& session::button_at(r.layers, l, i)
            &&& r.layers[l][i].active == (pressed || (before.active && !left))
            &&& r.layers[l][i].active != before.active ==> r.layers[l][i].changed
            &&& before.changed ==> r.layers[l][i].changed
            &&& r.layers[l][i].changed ==> before.changed || pressed || left || shown
        }),
{
    lifting_ends_one_touch(s, slot, slot, l, i);
    let t = s.lifted(slot);
    if reacts(s.layers[s.active_layer as int][button as int]) {
        lemma_pressing_lights(t, slot, button, l, i);
    }
}

/// A finger that comes down in a free slot, on a button that is not lit, taps
/// the key of the button, where it has one, and sends nothing else. A lit
/// button is not tapped again.
pub proof fn touching_taps_the_key(s: BarView, slot: u32, button: u32)
    requires
        s.wf(),
        command_laws::touch_in(s, slot) is None,
        button < s.layers[s.active_layer as int].len(),
    ensures
        ({
            let b = s.layers[s.active_layer as int][button as int];
            session_laws::sent_by(s, BarEvent::TouchDown(slot, Some(button))) == (if has_key(b)
                && !b.active {
                tap_of(b.action.code)
            } else {
                Seq::empty()
            })
        }),
{
    let b = s.layers[s.active_layer as int][button as int];
    let sent = session_laws::sent_by(s, BarEvent::TouchDown(slot, Some(button)));
    if has_key(b) && !b.active {
        assert(sent =~= tap_of(b.action.code));
    } else {
        assert(sent =~= Seq::empty());
    }
}

/// A finger that comes down in a slot that is in use lets go there first, and
/// then does what it does in a free slot.
pub proof fn touching_a_used_slot(s: BarView, slot: u32, hit: Option<u32>)
    requires
        s.wf(),
    ensures
        ({
            let free = session_laws::after(s, BarEvent::TouchUp(slot));
            &&& command_laws::touch_in(free, slot) is None
            &&& session_laws::after(s, BarEvent::TouchDown(slot, hit)) == session_laws::after(
                free,
                BarEvent::TouchDown(slot, hit),
            )
            &&& session_laws::sent_by(s, BarEvent::TouchDown(slot, hit)) == session_laws::sent_by(
                s,
                BarEvent::TouchUp(slot),
            ) + session_laws::sent_by(free, BarEvent::TouchDown(slot, hit))
        }),
{
    let free = session_laws::after(s, BarEvent::TouchUp(slot));
    command_laws::event_keeps_touch(s, BarEvent::TouchUp(slot), slot);
    assert(free.lifted(slot) == free);
    assert(free.lifted_events(slot) =~= Seq::empty());
    let later = session_laws::sent_by(free, BarEvent::TouchDown(slot, hit));
    assert(session_laws::sent_by(s, BarEvent::TouchDown(slot, hit)) =~= s.lifted_events(slot)
        + later);
}

proof fn lemma_released_button(
    layers: Seq<Seq<ButtonView>>,
    touches: Seq<(u32, TouchView)>,
    l: int,
    b: int,
)
    requires
        session::button_at(layers, l, b),
    ensures
        ({
            let r = session::released(layers, touches);
            let out = session::touched(touches, l, b) && layers[l][b].active;
            &&& session::button_at(r, l, b)
            &&& r.len() == layers.len()
            &&& r[l].len() == layers[l].len()
            &&& r[l][b] == (ButtonView {
                active: layers[l][b].active && !out,
                changed: layers[l][b].changed || out,
                ..layers[l][b]
            })
        }),
    decreases touches.len(),
{
    if touches.len() > 0 {
        let t = touches[0].1;
        let rest = touches.drop_first();
        let next = session::with_highlight(layers, t.layer as int, t.button as int, false);
        lemma_released_button(next, rest, l, b);
        if session::touched(touches, l, b) {
            let i = choose|i: int|
                0 <= i < touches.len() && session::rests_on((#[trigger] touches[i]).1, l, b);
            if i > 0 {
                assert(rest[i - 1] == touches[i]);
                assert(session::touched(rest, l, b));
            }
        }
        if session::touched(rest, l, b) {
            let i = choose|i: int|
                0 <= i < rest.len() && session::rests_on((#[trigger] rest[i]).1, l, b);
            assert(touches[i + 1] == rest[i]);
        }
    }
}

/// Cancelling the touches ends them all: the buttons under them go out and are
/// to be drawn where they were lit. All other buttons, the visible layer and
/// what is known of the keyboard stay as they are. The same holds where the
/// digitizer is gone, and then everything is drawn again.
pub proof fn cancelling_ends_all_touches(s: BarView, l: int, b: int)
    requires
        s.wf(),
        session::button_at(s.layers, l, b),
    ensures
        ({
            let r = session_laws::after(s, BarEvent::Cancel);
            let gone = session_laws::after(s, BarEvent::DigitizerRemoved);
            let out = session::touched(s.touches, l, b) && s.layers[l][b].active;
            &&& r.touches.len() == 0
            &&& r.layers.len() == s.layers.len()
            &&& session::button_at(r.layers, l, b)
            &&& r.layers[l][b] == (ButtonView {
                active: s.layers[l][b].active && !out,
                changed: s.layers[l][b].changed || out,
                ..s.layers[l][b]
            })
            &&& r.needs_complete_redraw == s.needs_complete_redraw
            &&& same_selection(s, r) && same_keyboard(s, r) && same_record(s, r)
            &&& gone.layers == r.layers && gone.touches.len() == 0 && gone.needs_complete_redraw
            &&& same_selection(s, gone) && same_keyboard(s, gone) && same_record(s, gone)
        }),
{
    lemma_released_button(s.layers, s.touches, l, b);
}

/// A lit button with a key, at this place.
pub open spec fn lit_with_key(layers: Seq<Seq<ButtonView>>, l: int, b: int) -> bool {
    session::button_at(layers, l, b) && layers[l][b].active && has_key(layers[l][b])
}

/// The events at this place let go of the key of a lit button under a touch.
pub open spec fn lets_go_at(
    layers: Seq<Seq<ButtonView>>,
    touches: Seq<(u32, TouchView)>,
    sent: Seq<InputEvent>,
    k: int,
    l: int,
    b: int,
) -> bool {
    &&& lit_with_key(layers, l, b)
    &&& session::touched(touches, l, b)
    &&& 0 <= k
    &&& k + 2 <= sent.len()
    &&& sent.subrange(k, k + 2) == release_of(layers[l][b].action.code)
}

proof fn lemma_released_sent(
    layers: Seq<Seq<ButtonView>>,
    touches: Seq<(u32, TouchView)>,
    l: int,
    b: int,
)
    requires
        lit_with_key(layers, l, b),
        session::touched(touches, l, b),
    ensures
        exists|k: int|
            lets_go_at(layers, touches, session::released_events(layers, touches), k, l, b),
    decreases touches.len(),
{
    let t = touches[0].1;
    let rest = touches.drop_first();
    let next = session::with_highlight(layers, t.layer as int, t.button as int, false);
    let first = session::highlight_events(layers, t.layer as int, t.button as int, false);
    let later = session::released_events(next, rest);
    let all = session::released_events(layers, touches);
    assert(all == first + later);
    let i = choose|i: int|
        0 <= i < touches.len() && session::rests_on((#[trigger] touches[i]).1, l, b);
    if session::rests_on(t, l, b) {
        assert(first =~= release_of(layers[l][b].action.code));
        assert(all.subrange(0, 2) =~= first);
        assert(lets_go_at(layers, touches, all, 0, l, b));
    } else {
        assert(rest[i - 1] == touches[i]);
        assert(session::touched(rest, l, b));
        assert(next[l][b] == layers[l][b]);
        lemma_released_sent(next, rest, l, b);
        let k = choose|k: int| lets_go_at(next, rest, later, k, l, b);
        let at = first.len() + k;
        assert(all.subrange(at, at + 2) =~= later.subrange(k, k + 2));
        assert(lets_go_at(layers, touches, all, at, l, b));
    }
}

/// Letting go of all touches lets go of the key of every lit button under a
/// finger.
pub proof fn cancelling_lets_go(s: BarView, l: int, b: int)
    requires
        lit_with_key(s.layers, l, b),
        session::touched(s.touches, l, b),
    ensures
        exists|k: int|
            lets_go_at(
                s.layers,
                s.touches,
                session_laws::sent_by(s, BarEvent::Cancel),
                k,
                l,
                b,
            ),
        session_laws::sent_by(s, BarEvent::DigitizerRemoved) == session_laws::sent_by(
            s,
            BarEvent::Cancel,
        ),
{
    lemma_released_sent(s.layers, s.touches, l, b);
    let sent = session_laws::sent_by(s, BarEvent::Cancel);
    let k = choose|k: int| lets_go_at(s.layers, s.touches, s.let_go_events(), k, l, b);
    assert(lets_go_at(s.layers, s.touches, sent, k, l, b));
}

/// The event is a report, or lets go of the key of a button of the layers.
pub open spec fn lets_go_of_a_button(layers: Seq<Seq<ButtonView>>, event: InputEvent) -> bool {
    ||| event == report()
    ||| exists|l: int, b: int| #[trigger]
        lit_with_key(layers, l, b) && event == (InputEvent {
            kind: 1,
            code: layers[l][b].action.code,
            value: 0,
        })
}

proof fn lemma_released_only(layers: Seq<Seq<ButtonView>>, touches: Seq<(u32, TouchView)>, k: int)
    requires
        0 <= k < session::released_events(layers, touches).len(),
    ensures
        lets_go_of_a_button(layers, session::released_events(layers, touches)[k]),
    decreases touches.len(),
{
    let l = touches[0].1.layer as int;
    let b = touches[0].1.button as int;
    let rest = touches.drop_first();
    let next = session::with_highlight(layers, l, b, false);
    let first = session::highlight_events(layers, l, b, false);
    let later = session::released_events(next, rest);
    let all = session::released_events(layers, touches);
    assert(all == first + later);
    if k < first.len() {
        assert(lit_with_key(layers, l, b));
    } else {
        let e = later[k - first.len()];
        assert(all[k] == e);
        lemma_released_only(next, rest, k - first.len());
        if e != report() {
            let (l2, b2) = choose|l2: int, b2: int| #[trigger]
                lit_with_key(next, l2, b2) && e == (InputEvent {
                    kind: 1,
                    code: next[l2][b2].action.code,
                    value: 0,
                });
            assert(lit_with_key(layers, l2, b2));
        }
    }
}

/// Letting go of all touches presses nothing: all that is sent lets go of keys
/// of lit buttons.
pub proof fn cancelling_only_lets_go(s: BarView, k: int)
    requires
        0 <= k < session_laws::sent_by(s, BarEvent::Cancel).len(),
    ensures
        lets_go_of_a_button(s.layers, session_laws::sent_by(s, BarEvent::Cancel)[k]),
{
    lemma_released_only(s.layers, s.touches, k);
}

/// A new configuration starts over: its buttons take the place of the old
/// ones, the first layer is visible and drawn completely, no bar is chosen, Fn
/// counts as up, and nothing is touched. The modifiers are still held. Fresh
/// buttons stay as they are, and nothing is sent for them.
pub proof fn reloading_starts_over(s: BarView, layers: Seq<Seq<ButtonView>>)
    ensures
        ({
            let r = session_laws::after(s, BarEvent::Reload(layers));
            &&& session_laws::same_buttons(r.layers, layers)
            &&& r.touches.len() == 0
            &&& r.active_layer == 0
            &&& r.overlay_layer is None
            &&& r.baseline() == 0
            &&& !r.fn_toggle_active && !r.fn_pressed && !r.fn_shortcut_used
            &&& r.fn_pressed_at is None
            &&& r.keyboard_modifiers == s.keyboard_modifiers
            &&& r.needs_complete_redraw
            &&& r.complete_drawing()
            &&& r.last_drawn_layer == usize::MAX
            &&& r.last_redraw_minute == s.last_redraw_minute
            &&& session_laws::all_idle(layers) ==> r.layers == layers && session_laws::sent_by(
                s,
                BarEvent::Reload(layers),
            ) == Seq::<InputEvent>::empty()
        }),
{
    session_laws::lemma_released_same(layers, s.touches);
    if session_laws::all_idle(layers) {
        session_laws::lemma_idle_release(layers, s.touches);
    }
}

/// A visible clock: a button of the visible layer with the key of clocks.
pub open spec fn clock_visible(s: BarView) -> bool {
    exists|i: int|
        0 <= i < s.layers[s.active_layer as int].len() && (
        #[trigger] s.layers[s.active_layer as int][i]).action.code == 359
}

/// Some visible button is marked for drawing.
pub open spec fn visible_marked(s: BarView) -> bool {
    exists|i: int|
        0 <= i < s.layers[s.active_layer as int].len() && (
        #[trigger] s.layers[s.active_layer as int][i]).changed
}

/// Before the daemon waits, a complete drawing is due where it was already,
/// where the visible layer is not the one drawn last, where the pixels shift,
/// and where a minute has begun under a visible clock; then the new minute is
/// noted. Nothing else changes.
pub proof fn waiting_notes_what_is_due(s: BarView, shift: Option<(bool, i32)>, minute: u32)
    ensures
        ({
            let r = session_laws::after(s, BarEvent::Poll(shift, minute));
            let ticked = clock_visible(s) && minute != s.last_redraw_minute;
            &&& r.needs_complete_redraw == (s.needs_complete_redraw || s.active_layer
                != s.last_drawn_layer || (shift matches Some((due, _)) && due) || ticked)
            &&& r.last_redraw_minute == (if ticked {
                minute
            } else {
                s.last_redraw_minute
            })
            &&& r.layers == s.layers && r.touches == s.touches
            &&& r.last_drawn_layer == s.last_drawn_layer
            &&& same_selection(s, r) && same_keyboard(s, r)
        }),
        session_laws::sent_by(s, BarEvent::Poll(shift, minute)) == Seq::<InputEvent>::empty(),
{
}

/// The daemon waits 16 milliseconds at most while a finger is down or anything
/// is to be drawn; else ten seconds, or less where the pixels shift before
/// that.
pub proof fn waiting_is_short_while_busy(s: BarView, shift: Option<(bool, i32)>, minute: u32)
    ensures
        ({
            let r = session_laws::after(s, BarEvent::Poll(shift, minute));
            let wait = s.poll_timeout(shift, minute);
            let busy = s.touches.len() > 0 || r.needs_complete_redraw || visible_marked(s);
            &&& busy ==> wait == 16
            &&& !busy && shift is None ==> wait == 10_000
            &&& shift matches Some((_, next)) ==> !busy ==> wait <= 10_000 && wait <= next && (wait
                == 10_000 || wait == next)
        }),
{
}

/// A drawing is due exactly where the visible layer is not the one drawn last,
/// where a complete one is asked for, or where a visible button is marked; it
/// is complete in the first two cases.
pub proof fn when_to_draw(s: BarView)
    ensures
        s.complete_drawing() == (s.needs_complete_redraw || s.active_layer != s.last_drawn_layer),
        s.drawing_due() == (s.complete_drawing() || visible_marked(s)),
{
}

/// Drawing settles the visible layer and nothing else: its buttons are marked
/// no more, those of other layers are as before, and the layer counts as drawn.
pub proof fn drawing_settles_the_visible_layer(s: BarView, l: int, b: int)
    requires
        s.wf(),
        session::button_at(s.layers, l, b),
    ensures
        ({
            let r = session_laws::after(s, BarEvent::Drawn);
            &&& session::button_at(r.layers, l, b)
            &&& r.layers.len() == s.layers.len()
            &&& l == s.active_layer ==> r.layers[l][b] == (ButtonView {
                changed: false,
                ..s.layers[l][b]
            })
            &&& l != s.active_layer ==> r.layers[l][b] == s.layers[l][b]
            &&& r.touches == s.touches
            &&& r.last_drawn_layer == s.active_layer
            &&& !r.needs_complete_redraw
            &&& r.last_redraw_minute == s.last_redraw_minute
            &&& same_selection(s, r) && same_keyboard(s, r)
        }),
        session_laws::sent_by(s, BarEvent::Drawn) == Seq::<InputEvent>::empty(),
{
}

/// Putting out orphans puts out the lit buttons that no touch rests on and
/// marks them for drawing; everything else is as before.
pub proof fn orphans_alone_go_out(s: BarView, l: int, b: int)
    requires
        session::button_at(s.layers, l, b),
    ensures
        ({
            let r = session_laws::after(s, BarEvent::ClearOrphans);
            let orphan = s.layers[l][b].active && !session::touched(s.touches, l, b);
            &&& session::button_at(r.layers, l, b)
            &&& r.layers[l][b] == (ButtonView {
                active: s.layers[l][b].active && !orphan,
                changed: s.layers[l][b].changed || orphan,
                ..s.layers[l][b]
            })
            &&& r.touches == s.touches
            &&& r.needs_complete_redraw == s.needs_complete_redraw
            &&& same_selection(s, r) && same_keyboard(s, r) && same_record(s, r)
        }),
{
}

/// The release of this key stands at this place of the events.
pub open spec fn releases_at(sent: Seq<InputEvent>, k: int, code: u16) -> bool {
    0 <= k && k + 2 <= sent.len() && sent.subrange(k, k + 2) == release_of(code)
}

/// The release of this key stands in the events.
pub open spec fn lets_go_of(sent: Seq<InputEvent>, code: u16) -> bool {
    exists|k: int| releases_at(sent, k, code)
}

proof fn lemma_lets_go_in(a: Seq<InputEvent>, m: Seq<InputEvent>, z: Seq<InputEvent>, code: u16)
    requires
        lets_go_of(m, code),
    ensures
        lets_go_of(a + m, code),
        lets_go_of(m + z, code),
{
    let k = choose|k: int| releases_at(m, k, code);
    assert((a + m).subrange(a.len() + k, a.len() + k + 2) =~= m.subrange(k, k + 2));
    assert((m + z).subrange(k, k + 2) =~= m.subrange(k, k + 2));
    assert(releases_at(a + m, a.len() + k, code));
    assert(releases_at(m + z, k, code));
}

proof fn lemma_row_lets_go(
    row: Seq<ButtonView>,
    touches: Seq<(u32, TouchView)>,
    layer: int,
    b: int,
)
    requires
        0 <= b < row.len(),
        row[b].active,
        has_key(row[b]),
        !session::touched(touches, layer, b),
    ensures
        lets_go_of(session::extinguish_row_events(row, touches, layer), row[b].action.code),
    decreases row.len(),
{
    let head = row.drop_last();
    let earlier = session::extinguish_row_events(head, touches, layer);
    let all = session::extinguish_row_events(row, touches, layer);
    let code = row[b].action.code;
    if b < head.len() {
        lemma_row_lets_go(head, touches, layer, b);
        let tail = if session::touched(touches, layer, row.len() - 1) {
            Seq::empty()
        } else {
            row.last().highlight_events(false)
        };
        lemma_lets_go_in(earlier, earlier, tail, code);
    } else {
        let m = row.last().highlight_events(false);
        assert(m =~= release_of(code));
        assert(m.subrange(0, 2) =~= release_of(code));
        assert(releases_at(m, 0, code));
        lemma_lets_go_in(earlier, m, m, code);
    }
}

proof fn lemma_orphans_let_go(
    layers: Seq<Seq<ButtonView>>,
    touches: Seq<(u32, TouchView)>,
    l: int,
    b: int,
)
    requires
        lit_with_key(layers, l, b),
        !session::touched(touches, l, b),
    ensures
        lets_go_of(session::extinguish_events(layers, touches), layers[l][b].action.code),
    decreases layers.len(),
{
    let head = layers.drop_last();
    let last = layers.len() - 1;
    let code = layers[l][b].action.code;
    let earlier = session::extinguish_events(head, touches);
    let row = session::extinguish_row_events(layers.last(), touches, last);
    if l < head.len() {
        lemma_orphans_let_go(head, touches, l, b);
        lemma_lets_go_in(earlier, earlier, row, code);
    } else {
        lemma_row_lets_go(layers.last(), touches, last, b);
        lemma_lets_go_in(earlier, row, row, code);
    }
}

/// Putting out an orphan lets go of its key, where it has one.
pub proof fn orphans_let_go(s: BarView, l: int, b: int)
    requires
        lit_with_key(s.layers, l, b),
        !session::touched(s.touches, l, b),
    ensures
        lets_go_of(
            session_laws::sent_by(s, BarEvent::ClearOrphans),
            s.layers[l][b].action.code,
        ),
{
    lemma_orphans_let_go(s.layers, s.touches, l, b);
}

/// Cancelling the touches is lifting the fingers one after the other, in the
/// order in which they came down; without touches nothing happens.
pub proof fn cancelling_is_lifting_all(s: BarView)
    requires
        s.wf(),
    ensures
        s.touches.len() == 0 ==> session_laws::after(s, BarEvent::Cancel) == s
            && session_laws::sent_by(s, BarEvent::Cancel) == Seq::<InputEvent>::empty(),
        s.touches.len() > 0 ==> {
            let up = BarEvent::TouchUp(s.touches[0].0);
            let rest = session_laws::after(s, up);
            &&& session_laws::after(s, BarEvent::Cancel) == session_laws::after(
                rest,
                BarEvent::Cancel,
            )
            &&& session_laws::sent_by(s, BarEvent::Cancel) == session_laws::sent_by(s, up)
                + session_laws::sent_by(rest, BarEvent::Cancel)
        },
{
    if s.touches.len() > 0 {
        lemma_place(s, s.touches[0].0, 0);
        assert(s.touches.remove(0) =~= s.touches.drop_first());
    } else {
        assert(s.touches =~= Seq::empty());
    }
}

} // verus!
