//! What holds of the bar however keys and touches come in: buttons keep their
//! nature, highlights belong to touches, keys that go down come up again, and
//! the Fn key leads back to where it started.

use crate::button;
use crate::button::{ButtonView, InputEvent, EV_KEY};
use crate::config::FnMode;
use crate::keys::KEY_FN;
use crate::session;
use crate::session::{BarView, KeyRules, TouchView, DEFAULT_LAYER, FN_LAYER};
use vstd::prelude::*;

verus! {

/// The two buttons differ at most in highlight and need of drawing.
pub open spec fn same_nature(a: ButtonView, b: ButtonView) -> bool {
    a == (ButtonView { changed: a.changed, active: a.active, ..b })
}

/// The layers hold the same buttons, up to highlight and need of drawing.
pub open spec fn same_buttons(a: Seq<Seq<ButtonView>>, b: Seq<Seq<ButtonView>>) -> bool {
    &&& a.len() == b.len()
    &&& forall|l: int| 0 <= l < a.len() ==> (#[trigger] a[l]).len() == b[l].len()
    &&& forall|l: int, i: int|
        0 <= l < a.len() && 0 <= i < a[l].len() ==> same_nature(#[trigger] a[l][i], b[l][i])
}

/// Every highlighted button has a touch resting on it.
pub open spec fn highlights_touched(s: BarView) -> bool {
    forall|l: int, b: int|
        session::button_at(s.layers, l, b) && (
        #[trigger] s.layers[l][b]).active ==> session::touched(
            s.touches,
            l,
            b,
        )
}

/// No button is highlighted.
pub open spec fn all_idle(layers: Seq<Seq<ButtonView>>) -> bool {
    forall|l: int, b: int|
        session::button_at(layers, l, b) ==> !(#[trigger] layers[l][b]).active
}

/// The event presses a key.
pub open spec fn is_press(event: InputEvent) -> bool {
    event.kind == EV_KEY && event.value == 1
}

/// The event presses or releases this key.
pub open spec fn is_of_key(event: InputEvent, code: u16) -> bool {
    event.kind == EV_KEY && event.code == code
}

/// The key is down once these events have come: the last one that speaks of it
/// presses it.
pub open spec fn is_down(events: Seq<InputEvent>, code: u16) -> bool {
    exists|i: int|
        {
            &&& 0 <= i < events.len()
            &&& is_press(#[trigger] events[i])
            &&& events[i].code == code
            &&& forall|j: int| i < j < events.len() ==> !is_of_key(#[trigger] events[j], code)
        }
}

/// One for an event that presses the key, minus one for an event that
/// releases it.
pub open spec fn press_of(event: InputEvent, code: u16) -> int {
    if is_of_key(event, code) {
        if event.value == 1 {
            1
        } else {
            -1
        }
    } else {
        0
    }
}

/// How many times more the events press a key than release it.
pub open spec fn balance(events: Seq<InputEvent>, code: u16) -> int
    decreases events.len(),
{
    if events.len() == 0 {
        0
    } else {
        balance(events.drop_last(), code) + press_of(events.last(), code)
    }
}

/// A press at this place is followed at once by its report, the release of the
/// same key and the report of that.
pub open spec fn tapped_at(events: Seq<InputEvent>, i: int) -> bool {
    &&& i + 3 < events.len()
    &&& events.subrange(i, i + 4) == button::tap_events(events[i].code)
}

/// Every press is followed at once by its release, and no key is pressed more
/// often than it is released.
pub open spec fn presses_released(events: Seq<InputEvent>) -> bool {
    &&& forall|i: int|
        0 <= i < events.len() && is_press(#[trigger] events[i]) ==> tapped_at(events, i)
    &&& forall|code: u16| #[trigger] balance(events, code) <= 0
}

/// Where every press is released at once, no key is down.
pub proof fn released_keys_are_up(events: Seq<InputEvent>, code: u16)
    requires
        presses_released(events),
    ensures
        !is_down(events, code),
{
    if is_down(events, code) {
        let i = choose|i: int|
            {
                &&& 0 <= i < events.len()
                &&& is_press(#[trigger] events[i])
                &&& events[i].code == code
                &&& forall|j: int| i < j < events.len() ==> !is_of_key(#[trigger] events[j], code)
            };
        assert(tapped_at(events, i));
        assert(events.subrange(i, i + 4)[2] == events[i + 2]);
        assert(is_of_key(events[i + 2], code));
    }
}

proof fn lemma_balance_append(a: Seq<InputEvent>, b: Seq<InputEvent>, code: u16)
    ensures
        balance(a + b, code) == balance(a, code) + balance(b, code),
    decreases b.len(),
{
    if b.len() == 0 {
        assert(a + b =~= a);
    } else {
        lemma_balance_append(a, b.drop_last(), code);
        assert((a + b).drop_last() =~= a + b.drop_last());
    }
}

proof fn lemma_appended(a: Seq<InputEvent>, b: Seq<InputEvent>)
    requires
        presses_released(a),
        presses_released(b),
    ensures
        presses_released(a + b),
{
    let n = a.len() as int;
    let c = a + b;
    assert forall|i: int| 0 <= i < c.len() && is_press(#[trigger] c[i]) implies tapped_at(
        c,
        i,
    ) by {
        if i < n {
            assert(a[i] == c[i]);
            assert(tapped_at(a, i));
            assert(c.subrange(i, i + 4) =~= a.subrange(i, i + 4));
        } else {
            assert(b[i - n] == c[i]);
            assert(tapped_at(b, i - n));
            assert(c.subrange(i, i + 4) =~= b.subrange(i - n, i - n + 4));
        }
    }
    assert forall|code: u16| #[trigger] balance(c, code) <= 0 by {
        lemma_balance_append(a, b, code);
    }
}

proof fn lemma_release(code: u16)
    ensures
        presses_released(button::toggle_events(code, 0)),
        presses_released(Seq::empty()),
{
    let events = button::toggle_events(code, 0);
    assert forall|other: u16| #[trigger] balance(events, other) <= 0 by {
        reveal_with_fuel(balance, 3);
        assert(events.drop_last().drop_last() =~= Seq::empty());
    }
}

proof fn lemma_tap(code: u16)
    ensures
        presses_released(button::tap_events(code)),
{
    let events = button::tap_events(code);
    assert(events.subrange(0, 4) =~= events);
    let press = button::toggle_events(code, 1);
    let release = button::toggle_events(code, 0);
    assert forall|other: u16| #[trigger] balance(events, other) <= 0 by {
        lemma_balance_append(press, release, other);
        reveal_with_fuel(balance, 3);
        assert(press.drop_last().drop_last() =~= Seq::empty());
        assert(release.drop_last().drop_last() =~= Seq::empty());
    }
}

proof fn lemma_highlight_off_sends(layers: Seq<Seq<ButtonView>>, layer: int, button: int)
    ensures
        presses_released(session::highlight_events(layers, layer, button, false)),
{
    lemma_release(layers[layer][button].action.code);
}

proof fn lemma_released_sends(layers: Seq<Seq<ButtonView>>, touches: Seq<(u32, TouchView)>)
    ensures
        presses_released(session::released_events(layers, touches)),
    decreases touches.len(),
{
    if touches.len() == 0 {
        lemma_release(0);
    } else {
        let l = touches[0].1.layer as int;
        let b = touches[0].1.button as int;
        let next = session::with_highlight(layers, l, b, false);
        lemma_highlight_off_sends(layers, l, b);
        lemma_released_sends(next, touches.drop_first());
        lemma_appended(
            session::highlight_events(layers, l, b, false),
            session::released_events(next, touches.drop_first()),
        );
    }
}

proof fn lemma_lifted_sends(s: BarView, slot: u32)
    ensures
        presses_released(s.lifted_events(slot)),
{
    match session::slot_place(s.touches, slot) {
        Some(i) => lemma_highlight_off_sends(
            s.layers,
            s.touches[i].1.layer as int,
            s.touches[i].1.button as int,
        ),
        None => lemma_release(0),
    }
}

proof fn lemma_row_sends(row: Seq<ButtonView>, touches: Seq<(u32, TouchView)>, layer: int)
    ensures
        presses_released(session::extinguish_row_events(row, touches, layer)),
    decreases row.len(),
{
    if row.len() == 0 {
        lemma_release(0);
    } else {
        lemma_row_sends(row.drop_last(), touches, layer);
        lemma_release(row.last().action.code);
        lemma_appended(
            session::extinguish_row_events(row.drop_last(), touches, layer),
            if session::touched(touches, layer, row.len() - 1) {
                Seq::empty()
            } else {
                row.last().highlight_events(false)
            },
        );
    }
}

proof fn lemma_extinguish_sends(layers: Seq<Seq<ButtonView>>, touches: Seq<(u32, TouchView)>)
    ensures
        presses_released(session::extinguish_events(layers, touches)),
    decreases layers.len(),
{
    if layers.len() == 0 {
        lemma_release(0);
    } else {
        let last = layers.len() - 1;
        lemma_extinguish_sends(layers.drop_last(), touches);
        lemma_row_sends(layers.last(), touches, last);
        lemma_appended(
            session::extinguish_events(layers.drop_last(), touches),
            session::extinguish_row_events(layers.last(), touches, last),
        );
    }
}

proof fn lemma_highlight_off(layers: Seq<Seq<ButtonView>>, layer: int, button: int, l: int, b: int)
    requires
        session::button_at(layers, l, b),
    ensures
        ({
            let after = session::with_highlight(layers, layer, button, false);
            &&& session::button_at(after, l, b)
            &&& after[l][b].active ==> layers[l][b].active && !(layer == l && button == b)
        }),
{
}

proof fn lemma_highlight_shape(
    layers: Seq<Seq<ButtonView>>,
    layer: int,
    button: int,
    active: bool,
    l: int,
    b: int,
)
    ensures
        session::button_at(session::with_highlight(layers, layer, button, active), l, b)
            == session::button_at(layers, l, b),
{
}

proof fn lemma_released_at(
    layers: Seq<Seq<ButtonView>>,
    touches: Seq<(u32, TouchView)>,
    l: int,
    b: int,
)
    ensures
        session::button_at(session::released(layers, touches), l, b) == session::button_at(
            layers,
            l,
            b,
        ),
        session::button_at(layers, l, b) && session::released(layers, touches)[l][b].active ==> {
            &&& layers[l][b].active
            &&& !session::touched(touches, l, b)
        },
    decreases touches.len(),
{
    if touches.len() > 0 {
        let t = touches[0].1;
        let next = session::with_highlight(layers, t.layer as int, t.button as int, false);
        lemma_highlight_shape(layers, t.layer as int, t.button as int, false, l, b);
        lemma_released_at(next, touches.drop_first(), l, b);
        if session::button_at(layers, l, b) && session::released(layers, touches)[l][b].active {
            lemma_highlight_off(layers, t.layer as int, t.button as int, l, b);
            if session::touched(touches, l, b) {
                let i = choose|i: int|
                    0 <= i < touches.len() && session::rests_on((#[trigger] touches[i]).1, l, b);
                if i > 0 {
                    assert(touches.drop_first()[i - 1] == touches[i]);
                    assert(session::touched(touches.drop_first(), l, b));
                }
            }
        }
    }
}

/// Letting go of all touches leaves no button highlighted.
pub proof fn release_puts_out_highlights(s: BarView)
    requires
        highlights_touched(s),
    ensures
        all_idle(s.let_go().layers),
        highlights_touched(s.let_go()),
{
    assert forall|l: int, b: int| session::button_at(s.let_go().layers, l, b) implies !(
    #[trigger] s.let_go().layers[l][b]).active by {
        lemma_released_at(s.layers, s.touches, l, b);
        if s.let_go().layers[l][b].active {
            assert(s.layers[l][b].active);
        }
    }
}

/// At the start nothing is highlighted, so every highlight has its touch.
pub proof fn start_has_no_highlights(layers: Seq<Seq<ButtonView>>, minute: u32)
    requires
        all_idle(layers),
    ensures
        highlights_touched(BarView::initial(layers, minute)),
{
    let s = BarView::initial(layers, minute);
    assert forall|l: int, b: int|
        session::button_at(s.layers, l, b) && (
        #[trigger] s.layers[l][b]).active implies session::touched(
        s.touches,
        l,
        b,
    ) by {
        assert(!layers[l][b].active);
    }
}

/// Showing a layer keeps highlights with their touches.
pub proof fn showing_keeps_highlights(s: BarView, requested: usize, release_keys: bool)
    requires
        highlights_touched(s),
    ensures
        highlights_touched(s.showing(requested, release_keys)),
{
    let r = s.showing(requested, release_keys);
    if requested < s.layers.len() {
        let t = if s.active_layer != requested && release_keys {
            release_puts_out_highlights(s);
            s.let_go()
        } else {
            s
        };
        assert forall|l: int, b: int|
            session::button_at(r.layers, l, b) && (
            #[trigger] r.layers[l][b]).active implies session::touched(r.touches, l, b) by {
            assert(session::button_at(t.layers, l, b));
            assert(t.layers[l][b].active);
        }
    }
}

/// A key of the keyboard keeps highlights with their touches.
pub proof fn key_keeps_highlights(
    s: BarView,
    rules: KeyRules,
    key: u32,
    pressed: bool,
    now: u64,
    redraw_hit: bool,
    layer_hit: Option<usize>,
)
    requires
        highlights_touched(s),
    ensures
        highlights_touched(s.key_step(rules, key, pressed, now, redraw_hit, layer_hit)),
{
    let r = s.key_step(rules, key, pressed, now, redraw_hit, layer_hit);
    if key == KEY_FN {
        if pressed {
            let t = BarView {
                fn_pressed: true,
                fn_pressed_at: Some(now),
                fn_shortcut_used: false,
                fn_toggle_active: if rules.fn_mode == FnMode::Toggle {
                    !s.fn_toggle_active
                } else {
                    s.fn_toggle_active
                },
                ..s
            };
            assert(highlights_touched(t));
            showing_keeps_highlights(t, s.fn_down_target(rules), true);
        } else {
            let t = BarView {
                fn_pressed: false,
                fn_toggle_active: s.fn_toggle_active != s.tap_flips(rules, now),
                ..s
            };
            assert(highlights_touched(t));
            if let Some(layer) = s.fn_up_target(rules, now) {
                showing_keeps_highlights(t, layer, true);
                let u = t.showing(layer, true);
                assert(r.layers == u.layers && r.touches == u.touches);
                assert(highlights_touched(r));
            }
        }
    } else if pressed && !redraw_hit {
        let t = BarView {
            keyboard_modifiers: s.keyboard_modifiers.updated(key, pressed),
            fn_shortcut_used: s.fn_shortcut_used || layer_hit is Some,
            ..s
        };
        if let Some(layer) = BarView::key_target(rules, key, layer_hit) {
            assert(highlights_touched(t.noting_selection(layer)));
            showing_keeps_highlights(t.noting_selection(layer), layer, true);
        }
    } else {
        assert forall|l: int, b: int|
            session::button_at(r.layers, l, b) && (
            #[trigger] r.layers[l][b]).active implies session::touched(r.touches, l, b) by {
            assert(session::button_at(s.layers, l, b));
            assert(s.layers[l][b].active);
        }
    }
}

/// Lifting a finger keeps highlights with their touches.
pub proof fn lift_keeps_highlights(s: BarView, slot: u32)
    requires
        highlights_touched(s),
    ensures
        highlights_touched(s.lifted(slot)),
{
    let r = s.lifted(slot);
    if let Some(i) = session::slot_place(s.touches, slot) {
        let t = s.touches[i].1;
        assert forall|l: int, b: int|
            session::button_at(r.layers, l, b) && (
            #[trigger] r.layers[l][b]).active implies session::touched(r.touches, l, b) by {
            lemma_highlight_shape(s.layers, t.layer as int, t.button as int, false, l, b);
            lemma_highlight_off(s.layers, t.layer as int, t.button as int, l, b);
            assert(s.layers[l][b].active);
            let j = choose|j: int|
                0 <= j < s.touches.len() && session::rests_on((#[trigger] s.touches[j]).1, l, b);
            assert(j != i);
            let k = if j < i {
                j
            } else {
                j - 1
            };
            assert(r.touches[k] == s.touches[j]);
        }
    }
}

/// A finger that comes down keeps highlights with their touches.
pub proof fn touch_keeps_highlights(s: BarView, slot: u32, hit: Option<u32>)
    requires
        highlights_touched(s),
    ensures
        highlights_touched(s.touch_down(slot, hit)),
{
    lift_keeps_highlights(s, slot);
    let t = s.lifted(slot);
    if let Some(button) = t.pressed_button(hit) {
        let b = t.layers[t.active_layer as int][button as int];
        let touch = TouchView { layer: t.active_layer, button, command: b.command };
        let lit = BarView {
            layers: session::with_highlight(t.layers, t.active_layer as int, button as int, true),
            ..t
        };
        let shown = match b.switch_to_layer {
            Some(layer) => lit.selecting(layer, false),
            None => lit,
        };
        let r = s.touch_down(slot, hit);
        assert(r.touches == t.touches.push((slot, touch)));
        assert forall|l: int, i: int|
            session::button_at(r.layers, l, i) && (
            #[trigger] r.layers[l][i]).active implies session::touched(r.touches, l, i) by {
            assert(session::button_at(lit.layers, l, i));
            assert(lit.layers[l][i].active);
            lemma_highlight_shape(t.layers, t.active_layer as int, button as int, true, l, i);
            if l == t.active_layer && i == button {
                assert(r.touches[t.touches.len() as int].1 == touch);
            } else {
                assert(t.layers[l][i].active);
                let j = choose|j: int|
                    0 <= j < t.touches.len() && session::rests_on(
                        (#[trigger] t.touches[j]).1,
                        l,
                        i,
                    );
                assert(r.touches[j] == t.touches[j]);
            }
        }
    }
}

/// What can happen to the bar.
pub enum BarEvent {
    /// A key of the keyboard, with what the shortcuts make of it.
    Key(KeyRules, u32, bool, u64, bool, Option<usize>),
    /// A finger comes down in a slot, on a button or beside the buttons.
    TouchDown(u32, Option<u32>),
    /// The finger of a slot lifts.
    TouchUp(u32),
    /// The touches are cancelled.
    Cancel,
    /// The digitizer is gone.
    DigitizerRemoved,
    /// A layer is requested from outside.
    Control(usize),
    /// The daemon is about to wait for input.
    Poll(Option<(bool, i32)>, u32),
    /// Highlights without touches are put out.
    ClearOrphans,
    /// The visible layer was drawn.
    Drawn,
    /// A new configuration takes effect.
    Reload(Seq<Seq<ButtonView>>),
}

/// The state after an event.
pub open spec fn after(s: BarView, event: BarEvent) -> BarView {
    match event {
        BarEvent::Key(rules, key, pressed, now, redraw_hit, layer_hit) => s.key_step(
            rules,
            key,
            pressed,
            now,
            redraw_hit,
            layer_hit,
        ),
        BarEvent::TouchDown(slot, hit) => s.touch_down(slot, hit),
        BarEvent::TouchUp(slot) => s.lifted(slot),
        BarEvent::Cancel => s.let_go(),
        BarEvent::DigitizerRemoved => s.unplugged(),
        BarEvent::Control(layer) => s.selecting(layer, true),
        BarEvent::Poll(shift, minute) => s.before_poll(shift, minute),
        BarEvent::ClearOrphans => s.without_orphans(),
        BarEvent::Drawn => s.drawn(),
        BarEvent::Reload(layers) => s.reloaded(layers),
    }
}

/// What an event sends to the virtual keyboard.
pub open spec fn sent_by(s: BarView, event: BarEvent) -> Seq<InputEvent> {
    match event {
        BarEvent::Key(rules, key, pressed, now, redraw_hit, layer_hit) => s.key_events(
            rules,
            key,
            pressed,
            now,
            redraw_hit,
            layer_hit,
        ),
        BarEvent::TouchDown(slot, hit) => s.touch_down_events(slot, hit),
        BarEvent::TouchUp(slot) => s.lifted_events(slot),
        BarEvent::Cancel => s.let_go_events(),
        BarEvent::DigitizerRemoved => s.let_go_events(),
        BarEvent::Control(layer) => s.showing_events(layer, true),
        BarEvent::Poll(shift, minute) => Seq::empty(),
        BarEvent::ClearOrphans => s.orphan_events(),
        BarEvent::Drawn => Seq::empty(),
        BarEvent::Reload(layers) => s.reload_events(layers),
    }
}

/// The state after a history of events.
pub open spec fn after_all(s: BarView, history: Seq<BarEvent>) -> BarView
    decreases history.len(),
{
    if history.len() == 0 {
        s
    } else {
        after(after_all(s, history.drop_last()), history.last())
    }
}

/// What a history of events sends to the virtual keyboard.
pub open spec fn sent_by_all(s: BarView, history: Seq<BarEvent>) -> Seq<InputEvent>
    decreases history.len(),
{
    if history.len() == 0 {
        Seq::empty()
    } else {
        let before = after_all(s, history.drop_last());
        sent_by_all(s, history.drop_last()) + sent_by(before, history.last())
    }
}

/// A new configuration brings layers, and their buttons are fresh.
pub open spec fn brings_fresh_layers(event: BarEvent) -> bool {
    event matches BarEvent::Reload(layers) ==> layers.len() > 0 && all_idle(layers)
}

/// Letting go of buttons that are not highlighted changes nothing and sends
/// nothing.
pub(crate) proof fn lemma_idle_release(layers: Seq<Seq<ButtonView>>, touches: Seq<(u32, TouchView)>)
    requires
        all_idle(layers),
    ensures
        session::released(layers, touches) == layers,
        session::released_events(layers, touches) == Seq::<InputEvent>::empty(),
    decreases touches.len(),
{
    if touches.len() > 0 {
        let l = touches[0].1.layer as int;
        let b = touches[0].1.button as int;
        if session::button_at(layers, l, b) {
            assert(!layers[l][b].active);
            assert(layers[l].update(b, layers[l][b]) =~= layers[l]);
            assert(layers.update(l, layers[l]) =~= layers);
        }
        assert(session::with_highlight(layers, l, b, false) == layers);
        lemma_idle_release(layers, touches.drop_first());
        assert(session::released_events(layers, touches) =~= Seq::empty());
    }
}

proof fn lemma_untouched_is_idle(s: BarView)
    requires
        highlights_touched(s),
        s.touches.len() == 0,
    ensures
        all_idle(s.layers),
{
    assert forall|l: int, b: int| session::button_at(s.layers, l, b) implies !(
    #[trigger] s.layers[l][b]).active by {
        if s.layers[l][b].active {
            assert(session::touched(s.touches, l, b));
        }
    }
}

/// Where every highlight has its touch there are no orphans: putting them out
/// changes nothing and sends nothing.
pub proof fn no_orphans(s: BarView)
    requires
        highlights_touched(s),
    ensures
        after(s, BarEvent::ClearOrphans) == s,
        sent_by(s, BarEvent::ClearOrphans) == Seq::<InputEvent>::empty(),
{
    assert forall|l: int| 0 <= l < s.layers.len() implies #[trigger] session::extinguished(
        s.layers,
        s.touches,
    )[l] == s.layers[l] by {
        assert forall|b: int| 0 <= b < s.layers[l].len() implies session::extinguished(
            s.layers,
            s.touches,
        )[l][b] == s.layers[l][b] by {
            assert(session::button_at(s.layers, l, b));
        }
        assert(session::extinguished(s.layers, s.touches)[l] =~= s.layers[l]);
    }
    assert(session::extinguished(s.layers, s.touches) =~= s.layers);
    lemma_no_orphans_send_nothing(s.layers, s.touches);
}

proof fn lemma_row_sends_nothing(
    row: Seq<ButtonView>,
    touches: Seq<(u32, TouchView)>,
    layer: int,
)
    requires
        forall|b: int|
            0 <= b < row.len() && (#[trigger] row[b]).active ==> session::touched(
                touches,
                layer,
                b,
            ),
    ensures
        session::extinguish_row_events(row, touches, layer) == Seq::<InputEvent>::empty(),
    decreases row.len(),
{
    if row.len() > 0 {
        let head = row.drop_last();
        assert forall|b: int| 0 <= b < head.len() && (
        #[trigger] head[b]).active implies session::touched(touches, layer, b) by {
            assert(row[b] == head[b]);
        }
        lemma_row_sends_nothing(head, touches, layer);
        assert(row.last() == row[row.len() - 1]);
        assert(session::extinguish_row_events(row, touches, layer) =~= Seq::empty());
    }
}

proof fn lemma_no_orphans_send_nothing(
    layers: Seq<Seq<ButtonView>>,
    touches: Seq<(u32, TouchView)>,
)
    requires
        forall|l: int, b: int|
            session::button_at(layers, l, b) && (
            #[trigger] layers[l][b]).active ==> session::touched(touches, l, b),
    ensures
        session::extinguish_events(layers, touches) == Seq::<InputEvent>::empty(),
    decreases layers.len(),
{
    if layers.len() > 0 {
        let head = layers.drop_last();
        let last = layers.len() - 1;
        assert forall|l: int, b: int|
            session::button_at(head, l, b) && (
            #[trigger] head[l][b]).active implies session::touched(touches, l, b) by {
            assert(session::button_at(layers, l, b));
            assert(layers[l][b] == head[l][b]);
        }
        lemma_no_orphans_send_nothing(head, touches);
        assert forall|b: int| 0 <= b < layers.last().len() && (
        #[trigger] layers.last()[b]).active implies session::touched(touches, last, b) by {
            assert(session::button_at(layers, last, b));
            assert(layers[last][b] == layers.last()[b]);
        }
        lemma_row_sends_nothing(layers.last(), touches, last);
        assert(session::extinguish_events(layers, touches) =~= Seq::empty());
    }
}

/// Putting out orphans leaves none: whatever was lit before, every highlight
/// then has its touch, and a button with a touch is as it was.
pub proof fn orphans_are_put_out(s: BarView)
    ensures
        highlights_touched(after(s, BarEvent::ClearOrphans)),
        forall|l: int, b: int|
            session::button_at(s.layers, l, b) && session::touched(s.touches, l, b)
                ==> #[trigger] after(s, BarEvent::ClearOrphans).layers[l][b] == s.layers[l][b],
{
}

proof fn lemma_drawn_keeps_highlights(s: BarView)
    requires
        s.active_layer < s.layers.len(),
        highlights_touched(s),
    ensures
        highlights_touched(s.drawn()),
{
    let r = s.drawn();
    assert forall|l: int, b: int|
        session::button_at(r.layers, l, b) && (
        #[trigger] r.layers[l][b]).active implies session::touched(r.touches, l, b) by {
        assert(session::button_at(s.layers, l, b));
        assert(s.layers[l][b].active);
    }
}

/// One event keeps highlights with their touches.
pub proof fn event_keeps_highlights(s: BarView, event: BarEvent)
    requires
        s.active_layer < s.layers.len(),
        highlights_touched(s),
        brings_fresh_layers(event),
    ensures
        highlights_touched(after(s, event)),
{
    let r = after(s, event);
    match event {
        BarEvent::Key(rules, key, pressed, now, redraw_hit, layer_hit) => {
            key_keeps_highlights(s, rules, key, pressed, now, redraw_hit, layer_hit);
        },
        BarEvent::TouchDown(slot, hit) => {
            touch_keeps_highlights(s, slot, hit);
        },
        BarEvent::TouchUp(slot) => {
            lift_keeps_highlights(s, slot);
        },
        BarEvent::Cancel => {
            release_puts_out_highlights(s);
        },
        BarEvent::DigitizerRemoved => {
            release_puts_out_highlights(s);
            assert(r.layers == s.let_go().layers && r.touches == s.let_go().touches);
            assert(highlights_touched(r));
        },
        BarEvent::Control(layer) => {
            assert(highlights_touched(s.noting_selection(layer)));
            showing_keeps_highlights(s.noting_selection(layer), layer, true);
        },
        BarEvent::Poll(shift, minute) => {
            assert(r.layers == s.layers && r.touches == s.touches);
            assert(highlights_touched(r));
        },
        BarEvent::ClearOrphans => {
            orphans_are_put_out(s);
        },
        BarEvent::Drawn => {
            lemma_drawn_keeps_highlights(s);
        },
        BarEvent::Reload(layers) => {
            lemma_idle_release(layers, s.touches);
            assert(r.layers == layers);
            assert forall|l: int, b: int|
                session::button_at(r.layers, l, b) && (
                #[trigger] r.layers[l][b]).active implies session::touched(r.touches, l, b) by {
                assert(!layers[l][b].active);
            }
        },
    }
}

/// Whatever happens, what is sent presses no key without releasing it at once.
pub proof fn event_keeps_balance(s: BarView, event: BarEvent)
    ensures
        presses_released(sent_by(s, event)),
{
    lemma_release(0);
    lemma_released_sends(s.layers, s.touches);
    match event {
        BarEvent::TouchDown(slot, hit) => {
            lemma_lifted_sends(s, slot);
            let t = s.lifted(slot);
            if let Some(button) = t.pressed_button(hit) {
                let at = t.active_layer as int;
                lemma_tap(t.layers[at][button as int].action.code);
                lemma_appended(
                    s.lifted_events(slot),
                    session::touch_events(t.layers, at, button as int),
                );
            } else {
                lemma_appended(s.lifted_events(slot), Seq::empty());
            }
        },
        BarEvent::TouchUp(slot) => {
            lemma_lifted_sends(s, slot);
        },
        BarEvent::ClearOrphans => {
            lemma_extinguish_sends(s.layers, s.touches);
        },
        BarEvent::Reload(layers) => {
            lemma_released_sends(layers, s.touches);
        },
        _ => {},
    }
}

/// Through any history, from any state: every press that was sent was followed
/// at once by its release, no key was pressed more often than released, and no
/// key is down.
pub proof fn history_keeps_balance(s: BarView, history: Seq<BarEvent>)
    ensures
        presses_released(sent_by_all(s, history)),
        forall|code: u16| !#[trigger] is_down(sent_by_all(s, history), code),
    decreases history.len(),
{
    if history.len() == 0 {
        lemma_release(0);
    } else {
        let head = history.drop_last();
        history_keeps_balance(s, head);
        event_keeps_balance(after_all(s, head), history.last());
        lemma_appended(sent_by_all(s, head), sent_by(after_all(s, head), history.last()));
    }
    assert forall|code: u16| !#[trigger] is_down(sent_by_all(s, history), code) by {
        released_keys_are_up(sent_by_all(s, history), code);
    }
}

proof fn lemma_showing_wf(s: BarView, requested: usize, release_keys: bool)
    requires
        s.wf(),
    ensures
        s.showing(requested, release_keys).wf(),
{
    session::lemma_released_len(s.layers, s.touches);
}

proof fn lemma_lifted_wf(s: BarView, slot: u32)
    requires
        s.wf(),
    ensures
        s.lifted(slot).wf(),
        forall|a: int|
            0 <= a < s.lifted(slot).touches.len() ==> (
            #[trigger] s.lifted(slot).touches[a]).0 != slot,
{
    if let Some(i) = session::slot_place(s.touches, slot) {
        let r = s.lifted(slot);
        assert forall|a: int, b: int| 0 <= a < b < r.touches.len() implies (
        #[trigger] r.touches[a]).0 != (#[trigger] r.touches[b]).0 by {
            let p = if a < i {
                a
            } else {
                a + 1
            };
            let q = if b < i {
                b
            } else {
                b + 1
            };
            assert(s.touches[p].0 != s.touches[q].0);
        }
        assert forall|a: int| 0 <= a < r.touches.len() implies (#[trigger] r.touches[a]).0
            != slot by {
            if a < i {
                assert(s.touches[a].0 != s.touches[i].0);
            } else {
                assert(s.touches[i].0 != s.touches[a + 1].0);
            }
        }
    }
}

/// A key shows a layer or leaves layers and touches alone, but for marking
/// everything for drawing.
proof fn lemma_key_shows(
    s: BarView,
    rules: KeyRules,
    key: u32,
    pressed: bool,
    now: u64,
    redraw_hit: bool,
    layer_hit: Option<usize>,
)
    ensures
        ({
            let r = s.key_step(rules, key, pressed, now, redraw_hit, layer_hit);
            let t = match s.shown_by_key(rules, key, pressed, now, redraw_hit, layer_hit) {
                Some(layer) => s.showing(layer, true),
                None => if key != KEY_FN && pressed && redraw_hit {
                    BarView { layers: session::dirtied_layers(s.layers), ..s }
                } else {
                    s
                },
            };
            r.layers == t.layers && r.touches == t.touches && r.active_layer == t.active_layer
        }),
{
}

proof fn lemma_touch_down_wf(s: BarView, slot: u32, hit: Option<u32>)
    requires
        s.wf(),
    ensures
        s.touch_down(slot, hit).wf(),
{
    lemma_lifted_wf(s, slot);
    let t = s.lifted(slot);
    if let Some(button) = t.pressed_button(hit) {
        let lit = BarView {
            layers: session::with_highlight(t.layers, t.active_layer as int, button as int, true),
            ..t
        };
        let b = t.layers[t.active_layer as int][button as int];
        if let Some(layer) = b.switch_to_layer {
            lemma_showing_wf(lit.noting_selection(layer), layer, false);
        }
        let r = s.touch_down(slot, hit);
        assert forall|a: int, b: int| 0 <= a < b < r.touches.len() implies (
        #[trigger] r.touches[a]).0 != (#[trigger] r.touches[b]).0 by {
            assert(r.touches[a] == t.touches[a]);
            if b < t.touches.len() {
                assert(r.touches[b] == t.touches[b]);
            }
        }
    }
}

/// Whatever happens, there is a visible layer and no slot is in use twice.
pub proof fn event_keeps_wf(s: BarView, event: BarEvent)
    requires
        s.wf(),
        event matches BarEvent::Reload(layers) ==> layers.len() > 0,
    ensures
        after(s, event).wf(),
{
    match event {
        BarEvent::Key(rules, key, pressed, now, redraw_hit, layer_hit) => {
            lemma_key_shows(s, rules, key, pressed, now, redraw_hit, layer_hit);
            if let Some(layer) = s.shown_by_key(rules, key, pressed, now, redraw_hit, layer_hit) {
                lemma_showing_wf(s, layer, true);
            }
        },
        BarEvent::TouchDown(slot, hit) => {
            lemma_touch_down_wf(s, slot, hit);
        },
        BarEvent::TouchUp(slot) => {
            lemma_lifted_wf(s, slot);
        },
        BarEvent::Cancel => {
            session::lemma_released_len(s.layers, s.touches);
        },
        BarEvent::DigitizerRemoved => {
            session::lemma_released_len(s.layers, s.touches);
        },
        BarEvent::Control(layer) => {
            lemma_showing_wf(s.noting_selection(layer), layer, true);
        },
        BarEvent::Reload(layers) => {
            session::lemma_released_len(layers, s.touches);
        },
        _ => {},
    }
}

/// From the start, through any history: there is a visible layer, no slot is
/// in use twice, and every highlight has its touch.
pub proof fn history_keeps_highlights(
    layers: Seq<Seq<ButtonView>>,
    minute: u32,
    history: Seq<BarEvent>,
)
    requires
        layers.len() > 0,
        all_idle(layers),
        forall|i: int| 0 <= i < history.len() ==> brings_fresh_layers(#[trigger] history[i]),
    ensures
        after_all(BarView::initial(layers, minute), history).wf(),
        highlights_touched(after_all(BarView::initial(layers, minute), history)),
    decreases history.len(),
{
    let start = BarView::initial(layers, minute);
    if history.len() == 0 {
        start_has_no_highlights(layers, minute);
    } else {
        let head = history.drop_last();
        assert forall|i: int| 0 <= i < head.len() implies brings_fresh_layers(
            #[trigger] head[i],
        ) by {
            assert(head[i] == history[i]);
        }
        history_keeps_highlights(layers, minute, head);
        let before = after_all(start, head);
        assert(history.last() == history[history.len() - 1]);
        event_keeps_wf(before, history.last());
        event_keeps_highlights(before, history.last());
    }
}

/// Once no finger is on the bar, no button is highlighted and no key is down.
pub proof fn no_finger_no_key(
    layers: Seq<Seq<ButtonView>>,
    minute: u32,
    history: Seq<BarEvent>,
    code: u16,
)
    requires
        layers.len() > 0,
        all_idle(layers),
        forall|i: int| 0 <= i < history.len() ==> brings_fresh_layers(#[trigger] history[i]),
        after_all(BarView::initial(layers, minute), history).touches.len() == 0,
    ensures
        all_idle(after_all(BarView::initial(layers, minute), history).layers),
        !is_down(sent_by_all(BarView::initial(layers, minute), history), code),
{
    history_keeps_highlights(layers, minute, history);
    lemma_untouched_is_idle(after_all(BarView::initial(layers, minute), history));
    history_keeps_balance(BarView::initial(layers, minute), history);
}

proof fn lemma_same_buttons_trans(
    a: Seq<Seq<ButtonView>>,
    b: Seq<Seq<ButtonView>>,
    c: Seq<Seq<ButtonView>>,
)
    requires
        same_buttons(a, b),
        same_buttons(b, c),
    ensures
        same_buttons(a, c),
{
    assert forall|l: int, i: int| 0 <= l < a.len() && 0 <= i < a[l].len() implies same_nature(
        #[trigger] a[l][i],
        c[l][i],
    ) by {
        assert(same_nature(a[l][i], b[l][i]));
        assert(same_nature(b[l][i], c[l][i]));
    }
}

pub(crate) proof fn lemma_released_same(layers: Seq<Seq<ButtonView>>, touches: Seq<(u32, TouchView)>)
    ensures
        same_buttons(session::released(layers, touches), layers),
    decreases touches.len(),
{
    if touches.len() > 0 {
        let t = touches[0].1;
        let next = session::with_highlight(layers, t.layer as int, t.button as int, false);
        lemma_released_same(next, touches.drop_first());
        lemma_same_buttons_trans(session::released(layers, touches), next, layers);
    }
}

proof fn lemma_showing_same(s: BarView, requested: usize, release_keys: bool)
    ensures
        same_buttons(s.showing(requested, release_keys).layers, s.layers),
{
    lemma_released_same(s.layers, s.touches);
    let t = if s.active_layer != requested && release_keys {
        s.let_go()
    } else {
        s
    };
    if requested < s.layers.len() {
        lemma_same_buttons_trans(
            s.showing(requested, release_keys).layers,
            t.layers,
            s.layers,
        );
    }
}

/// Only a new configuration changes what the buttons are: any other event
/// leaves their number, order, images, keys, commands, target layers and
/// backgrounds as they were.
pub proof fn event_keeps_buttons(s: BarView, event: BarEvent)
    requires
        s.wf(),
        event !is Reload,
    ensures
        same_buttons(after(s, event).layers, s.layers),
{
    lemma_released_same(s.layers, s.touches);
    match event {
        BarEvent::Key(rules, key, pressed, now, redraw_hit, layer_hit) => {
            lemma_key_shows(s, rules, key, pressed, now, redraw_hit, layer_hit);
            if let Some(layer) = s.shown_by_key(rules, key, pressed, now, redraw_hit, layer_hit) {
                lemma_showing_same(s, layer, true);
            } else {
                assert(same_buttons(s.layers, s.layers));
                assert(same_buttons(session::dirtied_layers(s.layers), s.layers));
            }
        },
        BarEvent::TouchDown(slot, hit) => {
            let t = s.lifted(slot);
            if let Some(button) = t.pressed_button(hit) {
                let lit = BarView {
                    layers: session::with_highlight(
                        t.layers,
                        t.active_layer as int,
                        button as int,
                        true,
                    ),
                    ..t
                };
                lemma_same_buttons_trans(lit.layers, t.layers, s.layers);
                let b = t.layers[t.active_layer as int][button as int];
                if let Some(layer) = b.switch_to_layer {
                    let noted = lit.noting_selection(layer);
                    lemma_showing_same(noted, layer, false);
                    lemma_same_buttons_trans(
                        noted.showing(layer, false).layers,
                        lit.layers,
                        s.layers,
                    );
                }
            }
        },
        BarEvent::Control(layer) => {
            lemma_showing_same(s.noting_selection(layer), layer, true);
        },
        _ => {},
    }
}

/// The bar that was chosen to stay up exists, where one was chosen.
pub open spec fn overlay_exists(s: BarView) -> bool {
    s.overlay_layer matches Some(layer) ==> layer < s.layers.len()
}

/// A key leaves the chosen bar alone or selects a layer that exists.
proof fn lemma_key_overlay(
    s: BarView,
    rules: KeyRules,
    key: u32,
    pressed: bool,
    now: u64,
    redraw_hit: bool,
    layer_hit: Option<usize>,
)
    requires
        overlay_exists(s),
    ensures
        s.key_step(rules, key, pressed, now, redraw_hit, layer_hit).overlay_layer matches Some(l)
            ==> l < s.layers.len(),
{
}

/// A finger that comes down leaves the chosen bar alone or selects a layer that
/// exists.
proof fn lemma_touch_overlay(s: BarView, slot: u32, hit: Option<u32>)
    requires
        overlay_exists(s),
    ensures
        s.touch_down(slot, hit).overlay_layer matches Some(l) ==> l < s.layers.len(),
{
    let t = s.lifted(slot);
    assert(t.overlay_layer == s.overlay_layer && t.layers.len() == s.layers.len());
}

/// At the start no bar was chosen, and whatever happens, one that was chosen
/// exists; so does the layer that letting go of Fn leads back to, as long as
/// there is a layer for the Fn key.
pub proof fn chosen_bar_exists(s: BarView, event: BarEvent)
    requires
        s.wf(),
        overlay_exists(s),
    ensures
        overlay_exists(after(s, event)),
        FN_LAYER < after(s, event).layers.len() ==> after(s, event).baseline() < after(
            s,
            event,
        ).layers.len(),
        overlay_exists(BarView::initial(s.layers, s.last_redraw_minute)),
{
    let r = after(s, event);
    if event !is Reload {
        event_keeps_buttons(s, event);
        assert(r.layers.len() == s.layers.len());
    }
    match event {
        BarEvent::Key(rules, key, pressed, now, redraw_hit, layer_hit) => {
            lemma_key_overlay(s, rules, key, pressed, now, redraw_hit, layer_hit);
        },
        BarEvent::TouchDown(slot, hit) => {
            lemma_touch_overlay(s, slot, hit);
        },
        _ => {},
    }
    assert(overlay_exists(r));
}

/// A request for a layer that does not exist changes nothing and sends
/// nothing.
pub proof fn missing_layer_is_ignored(s: BarView, layer: usize)
    requires
        layer >= s.layers.len(),
    ensures
        after(s, BarEvent::Control(layer)) == s,
        sent_by(s, BarEvent::Control(layer)) == Seq::<InputEvent>::empty(),
{
}

/// A request for a layer that exists brings it up, marked for drawing.
pub proof fn requested_layer_comes_up(s: BarView, layer: usize)
    requires
        layer < s.layers.len(),
    ensures
        after(s, BarEvent::Control(layer)).active_layer == layer,
        after(s, BarEvent::Control(layer)).needs_complete_redraw,
        after(s, BarEvent::Control(layer)).baseline() == layer,
{
}

/// Holding Fn shows the Fn layer, and letting go leads back to the baseline:
/// the overlay, or else the layer that the toggle shows.
pub proof fn hold_leads_back(s: BarView, rules: KeyRules, t0: u64, t1: u64)
    requires
        s.wf(),
        rules.fn_mode == FnMode::Hold,
        FN_LAYER < s.layers.len(),
        s.baseline() < s.layers.len(),
    ensures
        s.fn_down(rules, t0).active_layer == FN_LAYER,
        s.fn_down(rules, t0).fn_up(rules, t1).active_layer == s.baseline(),
        s.fn_down(rules, t0).fn_up(rules, t1).fn_toggle_active == s.fn_toggle_active,
        s.fn_down(rules, t0).fn_up(rules, t1).overlay_layer == s.overlay_layer,
{
    session::lemma_released_len(s.layers, s.touches);
}

/// In toggle mode each press of Fn flips between the default layer and the
/// Fn layer, and letting go changes nothing of it.
pub proof fn toggle_flips(s: BarView, rules: KeyRules, t0: u64, t1: u64)
    requires
        s.wf(),
        rules.fn_mode == FnMode::Toggle,
        FN_LAYER < s.layers.len(),
    ensures
        ({
            let r = s.fn_down(rules, t0).fn_up(rules, t1);
            &&& r.fn_toggle_active == !s.fn_toggle_active
            &&& r.active_layer == session::toggle_target(
                !s.fn_toggle_active,
                DEFAULT_LAYER,
                FN_LAYER,
            )
        }),
{
    session::lemma_released_len(s.layers, s.touches);
}

/// In smart mode a quick tap flips between the default layer and the Fn
/// layer; a longer press shows the Fn layer and leads back to the baseline.
pub proof fn smart_taps_and_holds(s: BarView, rules: KeyRules, t0: u64, t1: u64)
    requires
        s.wf(),
        rules.fn_mode == FnMode::Smart,
        FN_LAYER < s.layers.len(),
        s.baseline() < s.layers.len(),
    ensures
        s.fn_down(rules, t0).active_layer == FN_LAYER,
        ({
            let r = s.fn_down(rules, t0).fn_up(rules, t1);
            if t1 - t0 <= rules.fn_toggle_press_ms * 1_000_000 {
                &&& r.fn_toggle_active == !s.fn_toggle_active
                &&& r.active_layer == session::toggle_target(
                    !s.fn_toggle_active,
                    DEFAULT_LAYER,
                    FN_LAYER,
                )
            } else {
                &&& r.fn_toggle_active == s.fn_toggle_active
                &&& r.active_layer == s.baseline()
            }
        }),
{
    session::lemma_released_len(s.layers, s.touches);
}

/// A layer that a shortcut selected while Fn was down stays up when Fn is let
/// go.
pub proof fn shortcut_outlasts_fn(
    s: BarView,
    rules: KeyRules,
    key: u32,
    layer: usize,
    t0: u64,
    t1: u64,
)
    requires
        key != KEY_FN,
        layer < s.layers.len(),
    ensures
        ({
            let r = s.key_step(rules, key, true, t0, false, Some(layer)).fn_up(rules, t1);
            r.active_layer == layer
        }),
{
}

/// Drawing leaves nothing to draw.
pub proof fn drawing_is_done(s: BarView)
    requires
        s.wf(),
    ensures
        !s.drawn().drawing_due(),
        s.drawn().wf(),
{
}

/// What was shown last is drawn completely as soon as it changes layer: a
/// layer that comes up is never drawn in part.
pub proof fn new_layer_is_drawn_completely(s: BarView, requested: usize, release_keys: bool)
    requires
        requested < s.layers.len(),
    ensures
        s.showing(requested, release_keys).complete_drawing(),
{
}

/// A finger that comes down on an idle button in a free slot taps the button's
/// key; lifting again sends its release once more, runs the button's command,
/// and leaves no highlight and no touch behind.
pub proof fn tap_presses_and_releases(s: BarView, slot: u32, button: u32)
    requires
        s.wf(),
        session::slot_place(s.touches, slot) is None,
        button < s.layers[s.active_layer as int].len(),
        !s.layers[s.active_layer as int][button as int].active,
        s.layers[s.active_layer as int][button as int].interactive(),
    ensures
        ({
            let b = s.layers[s.active_layer as int][button as int];
            let down = s.touch_down(slot, Some(button));
            let up = down.lifted(slot);
            &&& s.touch_down_events(slot, Some(button)) == (if button::sends_key(b.action) {
                button::toggle_events(b.action.code, 1) + button::toggle_events(b.action.code, 0)
            } else {
                Seq::empty()
            })
            &&& down.lifted_events(slot) == (if button::sends_key(b.action) {
                button::toggle_events(b.action.code, 0)
            } else {
                Seq::empty()
            })
            &&& down.lifted_command(slot) == b.command
            &&& up.touches == s.touches
            &&& !up.layers[s.active_layer as int][button as int].active
        }),
{
    let at = s.active_layer as int;
    let b = s.layers[at][button as int];
    let lit = BarView {
        layers: session::with_highlight(s.layers, at, button as int, true),
        ..s
    };
    let shown = match b.switch_to_layer {
        Some(layer) => lit.selecting(layer, false),
        None => lit,
    };
    let down = s.touch_down(slot, Some(button));
    let touch = TouchView { layer: s.active_layer, button, command: b.command };
    assert(down == (BarView { touches: shown.touches.push((slot, touch)), ..shown }));
    assert(shown.touches == s.touches);
    let last = s.touches.len() as int;
    assert(down.touches[last] == (slot, touch));
    assert forall|i: int| 0 <= i < down.touches.len() && (
    #[trigger] down.touches[i]).0 == slot implies i == last by {
        if i < last {
            assert(s.touches[i].0 == slot);
        }
    }
    assert(session::slot_place(down.touches, slot) == Some(last));
    assert(Seq::<InputEvent>::empty() + b.touch_events() =~= b.touch_events());
    assert(down.layers[at][button as int].active);
    assert(down.layers[at][button as int].action == b.action);
    assert(down.touches.remove(last) =~= s.touches);
}

} // verus!
