//! The running state of the bar: touches, highlights, the visible layer, and
//! how keys, touches and requests change them.

use crate::button;
use crate::button::{ButtonView, DrawItem, FunctionLayer, InputEvent};
use crate::config;
use crate::config::{layer_for_shortcut, Config, FnMode};
use crate::keys::{KEY_FN, KEY_MACRO1, KEY_MACRO2, KEY_MACRO3, KEY_TIME};
use crate::shortcut::KeyboardModifiers;
use crate::text;
use crate::text::clone_opt;
use vstd::prelude::*;

verus! {

/// The layer that is shown first.
pub const DEFAULT_LAYER: usize = 0;

/// The layer that the Fn key shows.
pub const FN_LAYER: usize = 1;

/// A finger on a button.
pub struct ActiveTouch {
    pub layer: usize,
    pub button: u32,
    pub pending_command: Option<String>,
}

/// A finger on a button, with the command as a sequence of characters.
pub struct TouchView {
    pub layer: usize,
    pub button: u32,
    pub command: Option<Seq<char>>,
}

impl View for ActiveTouch {
    type V = TouchView;

    open spec fn view(&self) -> TouchView {
        TouchView {
            layer: self.layer,
            button: self.button,
            command: text::opt_text(self.pending_command),
        }
    }
}

/// There is a button at this place.
pub open spec fn button_at(layers: Seq<Seq<ButtonView>>, layer: int, button: int) -> bool {
    0 <= layer < layers.len() && 0 <= button < layers[layer].len()
}

/// The touch rests on this button.
pub open spec fn rests_on(touch: TouchView, layer: int, button: int) -> bool {
    touch.layer == layer && touch.button == button
}

/// Some touch rests on this button.
pub open spec fn touched(touches: Seq<(u32, TouchView)>, layer: int, button: int) -> bool {
    exists|i: int| 0 <= i < touches.len() && rests_on((#[trigger] touches[i]).1, layer, button)
}

/// The layers with the highlight of one button switched on or off, where
/// there is such a button.
pub open spec fn with_highlight(
    layers: Seq<Seq<ButtonView>>,
    layer: int,
    button: int,
    active: bool,
) -> Seq<Seq<ButtonView>> {
    if button_at(layers, layer, button) {
        layers.update(
            layer,
            layers[layer].update(button, layers[layer][button].highlighted(active)),
        )
    } else {
        layers
    }
}

/// The events that switching the highlight of one button sends.
pub open spec fn highlight_events(
    layers: Seq<Seq<ButtonView>>,
    layer: int,
    button: int,
    active: bool,
) -> Seq<InputEvent> {
    if button_at(layers, layer, button) {
        layers[layer][button].highlight_events(active)
    } else {
        Seq::empty()
    }
}

/// The events that touching one button sends.
pub open spec fn touch_events(layers: Seq<Seq<ButtonView>>, layer: int, button: int) -> Seq<
    InputEvent,
> {
    if button_at(layers, layer, button) {
        layers[layer][button].touch_events()
    } else {
        Seq::empty()
    }
}

/// The layers after every touch has let go of its button.
pub open spec fn released(layers: Seq<Seq<ButtonView>>, touches: Seq<(u32, TouchView)>) -> Seq<
    Seq<ButtonView>,
>
    decreases touches.len(),
{
    if touches.len() == 0 {
        layers
    } else {
        let t = touches[0].1;
        released(
            with_highlight(layers, t.layer as int, t.button as int, false),
            touches.drop_first(),
        )
    }
}

/// The events that letting go of every touched button sends.
pub open spec fn released_events(
    layers: Seq<Seq<ButtonView>>,
    touches: Seq<(u32, TouchView)>,
) -> Seq<InputEvent>
    decreases touches.len(),
{
    if touches.len() == 0 {
        Seq::empty()
    } else {
        let t = touches[0].1;
        highlight_events(layers, t.layer as int, t.button as int, false) + released_events(
            with_highlight(layers, t.layer as int, t.button as int, false),
            touches.drop_first(),
        )
    }
}

/// A layer with every button marked for drawing.
pub open spec fn all_dirty(buttons: Seq<ButtonView>) -> Seq<ButtonView> {
    Seq::new(buttons.len(), |i: int| buttons[i].dirtied())
}

/// The layers with one layer marked for drawing, where there is such a layer.
pub open spec fn dirtied_layer(layers: Seq<Seq<ButtonView>>, layer: int) -> Seq<Seq<ButtonView>> {
    if 0 <= layer < layers.len() {
        layers.update(layer, all_dirty(layers[layer]))
    } else {
        layers
    }
}

/// Every layer marked for drawing.
pub open spec fn dirtied_layers(layers: Seq<Seq<ButtonView>>) -> Seq<Seq<ButtonView>> {
    Seq::new(layers.len(), |i: int| all_dirty(layers[i]))
}

/// Lets go of one button, where there is such a button.
pub fn release_button(
    out: &mut Vec<InputEvent>,
    layers: &mut Vec<FunctionLayer>,
    layer: usize,
    button: u32,
)
    ensures
        button::layer_views(final(layers)@) == with_highlight(
            button::layer_views(old(layers)@),
            layer as int,
            button as int,
            false,
        ),
        final(out)@ == old(out)@ + highlight_events(
            button::layer_views(old(layers)@),
            layer as int,
            button as int,
            false,
        ),
{
    let at: usize = button as usize;
    if layer < layers.len() && at < layers[layer].buttons.len() {
        let ghost before = button::layer_views(layers@);
        layers[layer].buttons[at].set_active(out, false);
        proof {
            let after = button::layer_views(layers@);
            let want = with_highlight(before, layer as int, button as int, false);
            assert(after[layer as int] =~= want[layer as int]);
            assert(after =~= want);
        }
    } else {
        proof {
            assert(out@ + Seq::<InputEvent>::empty() =~= out@);
        }
    }
}

/// Marks every button of one layer for drawing, where there is such a layer.
pub fn mark_layer_dirty(layers: &mut Vec<FunctionLayer>, layer: usize)
    ensures
        button::layer_views(final(layers)@) == dirtied_layer(
            button::layer_views(old(layers)@),
            layer as int,
        ),
{
    if layer < layers.len() {
        let ghost before = button::layer_views(layers@);
        let n: usize = layers[layer].buttons.len();
        let mut i: usize = 0;
        while i < n
            invariant
                layer < layers@.len(),
                layers@.len() == before.len(),
                n == before[layer as int].len(),
                n == layers@[layer as int].buttons@.len(),
                i <= n,
                forall|k: int|
                    0 <= k < layers@.len() && k != layer ==> (#[trigger] layers@[k])@ == before[k],
                forall|j: int|
                    0 <= j < i ==> (#[trigger] layers@[layer as int].buttons@[j])@
                        == before[layer as int][j].dirtied(),
                forall|j: int|
                    i <= j < n ==> (#[trigger] layers@[layer as int].buttons@[j])@
                        == before[layer as int][j],
            decreases n - i,
        {
            layers[layer].buttons[i].changed = true;
            i += 1;
        }
        proof {
            let after = button::layer_views(layers@);
            let want = dirtied_layer(before, layer as int);
            assert(after[layer as int] =~= want[layer as int]);
            assert(after =~= want);
        }
    }
}

/// Marks every button of every layer for drawing.
pub fn mark_all_layers_dirty(layers: &mut Vec<FunctionLayer>)
    ensures
        button::layer_views(final(layers)@) == dirtied_layers(button::layer_views(old(layers)@)),
{
    let ghost before = button::layer_views(layers@);
    let n: usize = layers.len();
    let mut i: usize = 0;
    while i < n
        invariant
            i <= n,
            n == before.len(),
            n == layers@.len(),
            forall|k: int| 0 <= k < i ==> (#[trigger] layers@[k])@ == all_dirty(before[k]),
            forall|k: int| i <= k < n ==> (#[trigger] layers@[k])@ == before[k],
        decreases n - i,
    {
        let ghost mid = button::layer_views(layers@);
        mark_layer_dirty(layers, i);
        proof {
            let after = button::layer_views(layers@);
            assert(after.len() == layers@.len());
            assert forall|k: int| 0 <= k < n implies (#[trigger] layers@[k])@ == (if k == i {
                all_dirty(before[k])
            } else {
                mid[k]
            }) by {
                assert(after[k] == layers@[k]@);
            }
        }
        i += 1;
    }
    proof {
        assert(button::layer_views(layers@) =~= dirtied_layers(before));
    }
}

/// The layer to switch to, where it exists.
pub fn resolve_layer_index(requested_layer: usize, layer_count: usize) -> (r: Option<usize>)
    ensures
        r == (if requested_layer < layer_count {
            Some(requested_layer)
        } else {
            None
        }),
{
    if requested_layer < layer_count {
        Some(requested_layer)
    } else {
        None
    }
}

/// The layer that the Fn toggle shows.
pub open spec fn toggle_target(
    fn_toggle_active: bool,
    default_layer: usize,
    fn_layer: usize,
) -> usize {
    if fn_toggle_active {
        fn_layer
    } else {
        default_layer
    }
}

/// The layer to fall back to: the overlay, else what the Fn toggle shows.
pub open spec fn fallback_layer(
    overlay_layer: Option<usize>,
    fn_toggle_active: bool,
    default_layer: usize,
    fn_layer: usize,
) -> usize {
    match overlay_layer {
        Some(layer) => layer,
        None => toggle_target(fn_toggle_active, default_layer, fn_layer),
    }
}

/// The layer to show once the Fn key is let go.
pub fn baseline_layer(
    overlay_layer: Option<usize>,
    fn_toggle_active: bool,
    default_layer: usize,
    fn_layer: usize,
) -> (r: usize)
    ensures
        r == fallback_layer(overlay_layer, fn_toggle_active, default_layer, fn_layer),
{
    if let Some(layer) = overlay_layer {
        return layer;
    }
    fn_toggle_target(fn_toggle_active, default_layer, fn_layer)
}

/// The layer that the Fn toggle shows.
pub fn fn_toggle_target(fn_toggle_active: bool, default_layer: usize, fn_layer: usize) -> (r: usize)
    ensures
        r == toggle_target(fn_toggle_active, default_layer, fn_layer),
{
    if fn_toggle_active {
        fn_layer
    } else {
        default_layer
    }
}

/// How long to wait for input while nothing happens, in milliseconds.
pub const TIMEOUT_MS: i32 = 10_000;

/// How long to wait for input while a touch is active or the display needs
/// updating, in milliseconds.
pub const INTERACTIVE_POLL_MS: i32 = 16;

/// The state of the bar. Points in time are in nanoseconds of one clock.
pub struct BarView {
    pub layers: Seq<Seq<ButtonView>>,
    pub touches: Seq<(u32, TouchView)>,
    pub active_layer: usize,
    pub overlay_layer: Option<usize>,
    pub fn_toggle_active: bool,
    pub fn_pressed: bool,
    pub fn_pressed_at: Option<u64>,
    pub fn_shortcut_used: bool,
    pub keyboard_modifiers: KeyboardModifiers,
    pub needs_complete_redraw: bool,
    pub last_drawn_layer: usize,
    pub last_redraw_minute: u32,
}

/// The options that decide what a key does.
pub struct KeyRules {
    pub fn_mode: FnMode,
    pub fn_toggle_press_ms: u64,
    pub media_layer_default: bool,
}

/// The options of `cfg` that decide what a key does.
pub open spec fn key_rules(cfg: Config) -> KeyRules {
    KeyRules {
        fn_mode: cfg.fn_mode,
        fn_toggle_press_ms: cfg.fn_toggle_press_ms,
        media_layer_default: cfg.media_layer_default,
    }
}

/// A press of the Fn key was a quick tap. A press whose start is not known
/// took as long as can be.
pub open spec fn quick_tap(pressed_at: Option<u64>, now: u64, press_ms: u64) -> bool {
    match pressed_at {
        Some(start) => now - start <= press_ms * 1_000_000,
        None => press_ms == u64::MAX,
    }
}

/// The place of a slot among the touches, where it is in use.
pub open spec fn slot_place(touches: Seq<(u32, TouchView)>, slot: u32) -> Option<int> {
    if exists|i: int| 0 <= i < touches.len() && (#[trigger] touches[i]).0 == slot {
        Some(choose|i: int| 0 <= i < touches.len() && (#[trigger] touches[i]).0 == slot)
    } else {
        None
    }
}

/// No slot is in use twice.
pub open spec fn slots_distinct(touches: Seq<(u32, TouchView)>) -> bool {
    forall|i: int, j: int|
        0 <= i < j < touches.len() ==> (#[trigger] touches[i]).0 != (#[trigger] touches[j]).0
}

/// Some button of the layer needs drawing.
pub open spec fn any_changed(buttons: Seq<ButtonView>) -> bool {
    exists|i: int| 0 <= i < buttons.len() && (#[trigger] buttons[i]).changed
}

/// Some button of the layer shows the time.
pub open spec fn shows_time(buttons: Seq<ButtonView>) -> bool {
    exists|i: int| 0 <= i < buttons.len() && (#[trigger] buttons[i]).action.code == KEY_TIME
}

impl BarView {
    /// There is a visible layer, and no slot is in use twice.
    pub open spec fn wf(self) -> bool {
        self.active_layer < self.layers.len() && slots_distinct(self.touches)
    }

    /// The state at the start.
    pub open spec fn initial(layers: Seq<Seq<ButtonView>>, minute: u32) -> BarView {
        BarView {
            layers,
            touches: Seq::empty(),
            active_layer: DEFAULT_LAYER,
            overlay_layer: None,
            fn_toggle_active: false,
            fn_pressed: false,
            fn_pressed_at: None,
            fn_shortcut_used: false,
            keyboard_modifiers: KeyboardModifiers {
                ctrl: false,
                alt: false,
                shift: false,
                super_key: false,
            },
            needs_complete_redraw: true,
            last_drawn_layer: usize::MAX,
            last_redraw_minute: minute,
        }
    }

    /// Every touch has let go.
    pub open spec fn let_go(self) -> BarView {
        BarView {
            layers: released(self.layers, self.touches),
            touches: Seq::empty(),
            ..self
        }
    }

    /// The events that letting go sends.
    pub open spec fn let_go_events(self) -> Seq<InputEvent> {
        released_events(self.layers, self.touches)
    }

    /// Another layer is shown, where it exists: touches let go first where
    /// that is asked for and the layer is not the one already shown.
    pub open spec fn showing(self, requested: usize, release_keys: bool) -> BarView {
        if requested < self.layers.len() {
            let s = if self.active_layer != requested && release_keys {
                self.let_go()
            } else {
                self
            };
            BarView {
                active_layer: requested,
                layers: dirtied_layer(s.layers, requested as int),
                needs_complete_redraw: true,
                ..s
            }
        } else {
            self
        }
    }

    /// The events that showing another layer sends.
    pub open spec fn showing_events(self, requested: usize, release_keys: bool) -> Seq<InputEvent> {
        if requested < self.layers.len() && self.active_layer != requested && release_keys {
            self.let_go_events()
        } else {
            Seq::empty()
        }
    }

    /// The requested layer, where it does not exist.
    pub open spec fn refused(self, requested: usize) -> Option<usize> {
        if requested < self.layers.len() {
            None
        } else {
            Some(requested)
        }
    }

    /// A layer is selected, where it exists. The default layer and that of
    /// the Fn key end an overlay and set the Fn toggle; any other layer
    /// becomes the overlay.
    pub open spec fn noting_selection(self, requested: usize) -> BarView {
        if requested >= self.layers.len() {
            self
        } else if requested <= 1 {
            BarView { overlay_layer: None, fn_toggle_active: requested == FN_LAYER, ..self }
        } else {
            BarView { overlay_layer: Some(requested), ..self }
        }
    }

    /// A layer is selected and shown, where it exists.
    pub open spec fn selecting(self, requested: usize, release_keys: bool) -> BarView {
        self.noting_selection(requested).showing(requested, release_keys)
    }

    /// The layer to fall back to.
    pub open spec fn baseline(self) -> usize {
        fallback_layer(self.overlay_layer, self.fn_toggle_active, DEFAULT_LAYER, FN_LAYER)
    }

    /// The layer that the Fn toggle shows once it is flipped.
    pub open spec fn flipped_target(self) -> usize {
        toggle_target(!self.fn_toggle_active, DEFAULT_LAYER, FN_LAYER)
    }

    /// The Fn key goes down.
    pub open spec fn fn_down(self, rules: KeyRules, now: u64) -> BarView {
        let s = BarView {
            fn_pressed: true,
            fn_pressed_at: Some(now),
            fn_shortcut_used: false,
            ..self
        };
        if rules.fn_mode == FnMode::Toggle {
            BarView { fn_toggle_active: !s.fn_toggle_active, ..s }.showing(
                self.flipped_target(),
                true,
            )
        } else {
            s.showing(FN_LAYER, true)
        }
    }

    /// The layer that is shown when the Fn key goes down.
    pub open spec fn fn_down_target(self, rules: KeyRules) -> usize {
        if rules.fn_mode == FnMode::Toggle {
            self.flipped_target()
        } else {
            FN_LAYER
        }
    }

    /// Letting go of the Fn key flips the toggle.
    pub open spec fn tap_flips(self, rules: KeyRules, now: u64) -> bool {
        &&& !self.fn_shortcut_used
        &&& rules.fn_mode == FnMode::Smart
        &&& quick_tap(self.fn_pressed_at, now, rules.fn_toggle_press_ms)
    }

    /// The layer that is shown when the Fn key goes up, if any: none after a
    /// shortcut, and none in toggle mode.
    pub open spec fn fn_up_target(self, rules: KeyRules, now: u64) -> Option<usize> {
        if self.fn_shortcut_used || rules.fn_mode == FnMode::Toggle {
            None
        } else if self.tap_flips(rules, now) {
            Some(self.flipped_target())
        } else {
            Some(self.baseline())
        }
    }

    /// The Fn key goes up.
    pub open spec fn fn_up(self, rules: KeyRules, now: u64) -> BarView {
        let s = BarView {
            fn_pressed: false,
            fn_toggle_active: self.fn_toggle_active != self.tap_flips(rules, now),
            ..self
        };
        let t = match self.fn_up_target(rules, now) {
            Some(layer) => s.showing(layer, true),
            None => s,
        };
        BarView { fn_pressed_at: None, fn_shortcut_used: false, ..t }
    }

    /// The layer that a key selects, where `layer_hit` is the layer of the
    /// shortcut that it completes.
    pub open spec fn key_target(rules: KeyRules, key: u32, layer_hit: Option<usize>) -> Option<
        usize,
    > {
        if layer_hit is Some {
            layer_hit
        } else if key == KEY_MACRO1 {
            Some(
                if rules.media_layer_default {
                    DEFAULT_LAYER
                } else {
                    FN_LAYER
                },
            )
        } else if key == KEY_MACRO2 {
            Some(2)
        } else if key == KEY_MACRO3 {
            Some(3)
        } else {
            None
        }
    }

    /// A key other than Fn goes down or up; `redraw_hit` tells whether it
    /// completes the shortcut for drawing everything again.
    pub open spec fn other_key(
        self,
        rules: KeyRules,
        key: u32,
        pressed: bool,
        redraw_hit: bool,
        layer_hit: Option<usize>,
    ) -> BarView {
        let s = BarView {
            keyboard_modifiers: self.keyboard_modifiers.updated(key, pressed),
            ..self
        };
        if !pressed {
            s
        } else if redraw_hit {
            BarView { layers: dirtied_layers(s.layers), needs_complete_redraw: true, ..s }
        } else {
            let t = BarView { fn_shortcut_used: s.fn_shortcut_used || layer_hit is Some, ..s };
            match BarView::key_target(rules, key, layer_hit) {
                Some(layer) => t.selecting(layer, true),
                None => t,
            }
        }
    }

    /// A key goes down or up.
    pub open spec fn key_step(
        self,
        rules: KeyRules,
        key: u32,
        pressed: bool,
        now: u64,
        redraw_hit: bool,
        layer_hit: Option<usize>,
    ) -> BarView {
        if key == KEY_FN {
            if pressed {
                self.fn_down(rules, now)
            } else {
                self.fn_up(rules, now)
            }
        } else {
            self.other_key(rules, key, pressed, redraw_hit, layer_hit)
        }
    }

    /// The layer that a key shows, if any.
    pub open spec fn shown_by_key(
        self,
        rules: KeyRules,
        key: u32,
        pressed: bool,
        now: u64,
        redraw_hit: bool,
        layer_hit: Option<usize>,
    ) -> Option<usize> {
        if key == KEY_FN {
            if pressed {
                Some(self.fn_down_target(rules))
            } else {
                self.fn_up_target(rules, now)
            }
        } else if pressed && !redraw_hit {
            BarView::key_target(rules, key, layer_hit)
        } else {
            None
        }
    }

    /// The events that a key sends: the touches let go where another layer
    /// comes up.
    pub open spec fn key_events(
        self,
        rules: KeyRules,
        key: u32,
        pressed: bool,
        now: u64,
        redraw_hit: bool,
        layer_hit: Option<usize>,
    ) -> Seq<InputEvent> {
        match self.shown_by_key(rules, key, pressed, now, redraw_hit, layer_hit) {
            Some(layer) => self.showing_events(layer, true),
            None => Seq::empty(),
        }
    }

    /// The layer that a key asks for, where it does not exist.
    pub open spec fn refused_by_key(
        self,
        rules: KeyRules,
        key: u32,
        pressed: bool,
        now: u64,
        redraw_hit: bool,
        layer_hit: Option<usize>,
    ) -> Option<usize> {
        match self.shown_by_key(rules, key, pressed, now, redraw_hit, layer_hit) {
            Some(layer) => self.refused(layer),
            None => None,
        }
    }

    /// The key completes the shortcut for drawing everything again.
    pub open spec fn redraw_hit(self, cfg: Config, key: u32, pressed: bool) -> bool {
        cfg.redraw_shortcut.hit_by(
            cfg.redraw_shortcut.named_key(),
            key,
            self.fn_pressed,
            self.keyboard_modifiers.updated(key, pressed),
            false,
        )
    }

    /// The layer that the shortcuts select for the key.
    pub open spec fn layer_hit(self, cfg: Config, key: u32, pressed: bool) -> Option<usize> {
        config::best_layer(
            cfg.layer_shortcuts@,
            config::shortcut_hits(
                cfg.layer_shortcuts@,
                key,
                self.fn_pressed,
                self.keyboard_modifiers.updated(key, pressed),
            ),
        )
    }

    /// The finger in `slot`, if any, lets go of its button.
    pub open spec fn lifted(self, slot: u32) -> BarView {
        match slot_place(self.touches, slot) {
            Some(i) => BarView {
                layers: with_highlight(
                    self.layers,
                    self.touches[i].1.layer as int,
                    self.touches[i].1.button as int,
                    false,
                ),
                touches: self.touches.remove(i),
                ..self
            },
            None => self,
        }
    }

    /// The events that lifting the finger in `slot` sends.
    pub open spec fn lifted_events(self, slot: u32) -> Seq<InputEvent> {
        match slot_place(self.touches, slot) {
            Some(i) => highlight_events(
                self.layers,
                self.touches[i].1.layer as int,
                self.touches[i].1.button as int,
                false,
            ),
            None => Seq::empty(),
        }
    }

    /// The command that lifting the finger in `slot` runs.
    pub open spec fn lifted_command(self, slot: u32) -> Option<Seq<char>> {
        match slot_place(self.touches, slot) {
            Some(i) => self.touches[i].1.command,
            None => None,
        }
    }

    /// A finger comes down on a button of the visible layer: the button is
    /// highlighted, the layer that it switches to comes up without anything
    /// letting go, and the touch is remembered at its button.
    pub open spec fn pressing(self, slot: u32, button: u32) -> BarView {
        let b = self.layers[self.active_layer as int][button as int];
        let s = BarView {
            layers: with_highlight(self.layers, self.active_layer as int, button as int, true),
            ..self
        };
        let t = match b.switch_to_layer {
            Some(layer) => s.selecting(layer, false),
            None => s,
        };
        let touch = TouchView { layer: self.active_layer, button, command: b.command };
        BarView { touches: t.touches.push((slot, touch)), ..t }
    }

    /// The button under a finger on the visible layer, where touching it has
    /// an effect.
    pub open spec fn pressed_button(self, hit: Option<u32>) -> Option<u32> {
        match hit {
            Some(button) => if self.layers[self.active_layer as int][button as int].interactive() {
                hit
            } else {
                None
            },
            None => None,
        }
    }

    /// A finger comes down in `slot`, on the button `hit` of the visible
    /// layer or beside the buttons.
    pub open spec fn touch_down(self, slot: u32, hit: Option<u32>) -> BarView {
        let s = self.lifted(slot);
        match s.pressed_button(hit) {
            Some(button) => s.pressing(slot, button),
            None => s,
        }
    }

    /// The layer that a finger coming down asks for, where it does not exist.
    pub open spec fn refused_by_touch(self, slot: u32, hit: Option<u32>) -> Option<usize> {
        let s = self.lifted(slot);
        match s.pressed_button(hit) {
            Some(button) => match s.layers[s.active_layer as int][button as int].switch_to_layer {
                Some(layer) => self.refused(layer),
                None => None,
            },
            None => None,
        }
    }

    /// The events that a finger coming down sends: the slot is let go where it
    /// is in use, and the key of the button is tapped.
    pub open spec fn touch_down_events(self, slot: u32, hit: Option<u32>) -> Seq<InputEvent> {
        let s = self.lifted(slot);
        self.lifted_events(slot) + match s.pressed_button(hit) {
            Some(button) => touch_events(s.layers, s.active_layer as int, button as int),
            None => Seq::empty(),
        }
    }

    /// A new configuration takes effect: its layers replace the old ones, the
    /// touches let go, and the default layer is shown.
    pub open spec fn reloaded(self, layers: Seq<Seq<ButtonView>>) -> BarView {
        BarView {
            active_layer: DEFAULT_LAYER,
            fn_pressed: false,
            fn_pressed_at: None,
            fn_toggle_active: false,
            fn_shortcut_used: false,
            overlay_layer: None,
            last_drawn_layer: usize::MAX,
            needs_complete_redraw: true,
            ..BarView { layers, ..self }.let_go()
        }
    }

    /// The events that letting go sends when a new configuration takes effect.
    pub open spec fn reload_events(self, layers: Seq<Seq<ButtonView>>) -> Seq<InputEvent> {
        released_events(layers, self.touches)
    }

    /// The digitizer is gone: the touches let go, and everything is drawn again.
    pub open spec fn unplugged(self) -> BarView {
        BarView { needs_complete_redraw: true, ..self.let_go() }
    }

    /// Every highlight that no touch rests on is put out.
    pub open spec fn without_orphans(self) -> BarView {
        BarView { layers: extinguished(self.layers, self.touches), ..self }
    }

    /// The events that putting out highlights sends.
    pub open spec fn orphan_events(self) -> Seq<InputEvent> {
        extinguish_events(self.layers, self.touches)
    }

    /// The state in which to wait for input. A layer that was not drawn yet,
    /// a shift of the pixels and a new minute under a visible clock each ask
    /// for a complete drawing.
    pub open spec fn before_poll(self, shift: Option<(bool, i32)>, minute: u32) -> BarView {
        let new_minute = minute != self.last_redraw_minute && shows_time(
            self.layers[self.active_layer as int],
        );
        BarView {
            needs_complete_redraw: self.needs_complete_redraw || self.active_layer
                != self.last_drawn_layer || (shift matches Some((true, _))) || new_minute,
            last_redraw_minute: if new_minute {
                minute
            } else {
                self.last_redraw_minute
            },
            ..self
        }
    }

    /// How long to wait for input at most, in milliseconds.
    pub open spec fn poll_timeout(self, shift: Option<(bool, i32)>, minute: u32) -> i32 {
        let s = self.before_poll(shift, minute);
        if s.touches.len() > 0 || s.needs_complete_redraw || any_changed(
            s.layers[s.active_layer as int],
        ) {
            INTERACTIVE_POLL_MS
        } else {
            match shift {
                Some((_, next)) => if next < TIMEOUT_MS {
                    next
                } else {
                    TIMEOUT_MS
                },
                None => TIMEOUT_MS,
            }
        }
    }

    /// The next drawing is a complete one.
    pub open spec fn complete_drawing(self) -> bool {
        self.needs_complete_redraw || self.active_layer != self.last_drawn_layer
    }

    /// There is something to draw.
    pub open spec fn drawing_due(self) -> bool {
        self.complete_drawing() || any_changed(self.layers[self.active_layer as int])
    }

    /// The state after the visible layer was drawn.
    pub open spec fn drawn(self) -> BarView {
        BarView {
            layers: self.layers.update(
                self.active_layer as int,
                button::settled(self.layers[self.active_layer as int]),
            ),
            last_drawn_layer: self.active_layer,
            needs_complete_redraw: false,
            ..self
        }
    }
}

/// The button at a place, without its highlight where no touch rests on it.
pub open spec fn without_orphan(
    b: ButtonView,
    touches: Seq<(u32, TouchView)>,
    layer: int,
    button: int,
) -> ButtonView {
    if touched(touches, layer, button) {
        b
    } else {
        b.highlighted(false)
    }
}

/// The layers with every highlight put out that no touch rests on.
pub open spec fn extinguished(
    layers: Seq<Seq<ButtonView>>,
    touches: Seq<(u32, TouchView)>,
) -> Seq<Seq<ButtonView>> {
    Seq::new(
        layers.len(),
        |l: int|
            Seq::new(layers[l].len(), |b: int| without_orphan(layers[l][b], touches, l, b)),
    )
}

/// The events that putting out the highlights of a layer sends, from left to
/// right.
pub open spec fn extinguish_row_events(
    row: Seq<ButtonView>,
    touches: Seq<(u32, TouchView)>,
    layer: int,
) -> Seq<InputEvent>
    decreases row.len(),
{
    if row.len() == 0 {
        Seq::empty()
    } else {
        extinguish_row_events(row.drop_last(), touches, layer) + if touched(
            touches,
            layer,
            row.len() - 1,
        ) {
            Seq::empty()
        } else {
            row.last().highlight_events(false)
        }
    }
}

/// The events that putting out highlights sends, layer by layer.
pub open spec fn extinguish_events(
    layers: Seq<Seq<ButtonView>>,
    touches: Seq<(u32, TouchView)>,
) -> Seq<InputEvent>
    decreases layers.len(),
{
    if layers.len() == 0 {
        Seq::empty()
    } else {
        extinguish_events(layers.drop_last(), touches) + extinguish_row_events(
            layers.last(),
            touches,
            layers.len() - 1,
        )
    }
}

/// The touches by slot.
pub open spec fn touch_views(touches: Seq<(u32, ActiveTouch)>) -> Seq<(u32, TouchView)> {
    Seq::new(touches.len(), |i: int| (touches[i].0, touches[i].1@))
}

/// What to draw, and how.
pub struct Drawing {
    pub layer: usize,
    pub complete: bool,
    pub items: Vec<DrawItem>,
}

/// The bar while it runs.
pub struct TouchBar {
    layers: Vec<FunctionLayer>,
    touches: Vec<(u32, ActiveTouch)>,
    active_layer: usize,
    overlay_layer: Option<usize>,
    fn_toggle_active: bool,
    fn_pressed: bool,
    fn_pressed_at: Option<u64>,
    fn_shortcut_used: bool,
    keyboard_modifiers: KeyboardModifiers,
    needs_complete_redraw: bool,
    last_drawn_layer: usize,
    last_redraw_minute: u32,
}

impl View for TouchBar {
    type V = BarView;

    closed spec fn view(&self) -> BarView {
        BarView {
            layers: button::layer_views(self.layers@),
            touches: touch_views(self.touches@),
            active_layer: self.active_layer,
            overlay_layer: self.overlay_layer,
            fn_toggle_active: self.fn_toggle_active,
            fn_pressed: self.fn_pressed,
            fn_pressed_at: self.fn_pressed_at,
            fn_shortcut_used: self.fn_shortcut_used,
            keyboard_modifiers: self.keyboard_modifiers,
            needs_complete_redraw: self.needs_complete_redraw,
            last_drawn_layer: self.last_drawn_layer,
            last_redraw_minute: self.last_redraw_minute,
        }
    }
}

/// Lets go of every touched button, in the order in which the touches began,
/// and forgets the touches.
pub fn release_all_held_keys(
    out: &mut Vec<InputEvent>,
    touches: &mut Vec<(u32, ActiveTouch)>,
    layers: &mut Vec<FunctionLayer>,
)
    ensures
        button::layer_views(final(layers)@) == released(
            button::layer_views(old(layers)@),
            touch_views(old(touches)@),
        ),
        final(out)@ == old(out)@ + released_events(
            button::layer_views(old(layers)@),
            touch_views(old(touches)@),
        ),
        final(touches)@ == Seq::<(u32, ActiveTouch)>::empty(),
{
    let ghost all = touch_views(touches@);
    let ghost before = button::layer_views(layers@);
    let ghost sent = released_events(before, all);
    let n: usize = touches.len();
    let mut i: usize = 0;
    proof {
        assert(all.skip(0) =~= all);
        assert(old(out)@ + sent =~= out@ + sent);
    }
    while i < n
        invariant
            i <= n,
            n == touches@.len(),
            all == touch_views(touches@),
            released(before, all) == released(button::layer_views(layers@), all.skip(i as int)),
            old(out)@ + sent == out@ + released_events(
                button::layer_views(layers@),
                all.skip(i as int),
            ),
        decreases n - i,
    {
        let ghost mid = button::layer_views(layers@);
        let ghost out_mid = out@;
        let layer: usize = touches[i].1.layer;
        let at: u32 = touches[i].1.button;
        release_button(out, layers, layer, at);
        proof {
            let rest = all.skip(i as int);
            assert(rest[0].1 == touches@[i as int].1@);
            assert(rest.drop_first() =~= all.skip(i + 1));
            let first = highlight_events(mid, layer as int, at as int, false);
            let later = released_events(button::layer_views(layers@), all.skip(i + 1));
            assert(out_mid + (first + later) =~= (out_mid + first) + later);
        }
        i += 1;
    }
    proof {
        assert(all.skip(n as int) =~= Seq::empty());
        assert(out@ + Seq::<InputEvent>::empty() =~= out@);
    }
    touches.clear();
}

fn is_touched(touches: &Vec<(u32, ActiveTouch)>, layer: usize, button: usize) -> (r: bool)
    ensures
        r == touched(touch_views(touches@), layer as int, button as int),
{
    let ghost all = touch_views(touches@);
    let mut i: usize = 0;
    while i < touches.len()
        invariant
            i <= touches@.len(),
            all == touch_views(touches@),
            forall|j: int|
                0 <= j < i ==> !rests_on((#[trigger] all[j]).1, layer as int, button as int),
        decreases touches.len() - i,
    {
        assert(all[i as int].1 == touches@[i as int].1@);
        if touches[i].1.layer == layer && touches[i].1.button as usize == button {
            assert(rests_on(all[i as int].1, layer as int, button as int));
            return true;
        }
        i += 1;
    }
    false
}

/// Puts out the highlights of one layer that no touch rests on.
fn extinguish_layer(
    out: &mut Vec<InputEvent>,
    touches: &Vec<(u32, ActiveTouch)>,
    layers: &mut Vec<FunctionLayer>,
    layer: usize,
)
    requires
        layer < old(layers)@.len(),
    ensures
        button::layer_views(final(layers)@) == button::layer_views(old(layers)@).update(
            layer as int,
            extinguished(button::layer_views(old(layers)@), touch_views(touches@))[layer as int],
        ),
        final(out)@ == old(out)@ + extinguish_row_events(
            old(layers)@[layer as int]@,
            touch_views(touches@),
            layer as int,
        ),
{
    let ghost all = touch_views(touches@);
    let ghost at = layer as int;
    let ghost before = button::layer_views(layers@);
    let ghost row = layers@[at]@;
    let n: usize = layers[layer].buttons.len();
    let mut i: usize = 0;
    proof {
        assert(row.take(0) =~= Seq::empty());
        assert(out@ + Seq::<InputEvent>::empty() =~= out@);
    }
    while i < n
        invariant
            layer < layers@.len(),
            layers@.len() == before.len(),
            at == layer,
            all == touch_views(touches@),
            n == row.len(),
            n == layers@[at].buttons@.len(),
            i <= n,
            out@ == old(out)@ + extinguish_row_events(row.take(i as int), all, at),
            forall|k: int|
                0 <= k < layers@.len() && k != layer ==> (#[trigger] layers@[k])@ == before[k],
            forall|j: int|
                0 <= j < i ==> (#[trigger] layers@[at].buttons@[j])@ == without_orphan(
                    row[j],
                    all,
                    at,
                    j,
                ),
            forall|j: int| i <= j < n ==> (#[trigger] layers@[at].buttons@[j])@ == row[j],
        decreases n - i,
    {
        proof {
            assert(row.take(i + 1).drop_last() =~= row.take(i as int));
            assert(layers@[at].buttons@[i as int]@ == row[i as int]);
            assert(out@ + Seq::<InputEvent>::empty() =~= out@);
        }
        let ghost sent = extinguish_row_events(row.take(i as int), all, at);
        let ghost now = if touched(all, at, i as int) {
            Seq::empty()
        } else {
            row[i as int].highlight_events(false)
        };
        if layers[layer].buttons[i].active && !is_touched(touches, layer, i) {
            layers[layer].buttons[i].set_active(out, false);
        }
        proof {
            assert(old(out)@ + sent + now =~= old(out)@ + (sent + now));
        }
        i += 1;
    }
    proof {
        assert(row.take(n as int) =~= row);
        assert(before[at] == row);
        let after = button::layer_views(layers@);
        let want = before.update(at, extinguished(before, all)[at]);
        assert(after[at] =~= want[at]);
        assert(after =~= want);
    }
}

/// Puts out the highlights that outlived their touch: those of buttons that no
/// touch rests on. Buttons with a touch stay as they are.
pub fn clear_orphan_highlights(
    out: &mut Vec<InputEvent>,
    touches: &Vec<(u32, ActiveTouch)>,
    layers: &mut Vec<FunctionLayer>,
)
    ensures
        button::layer_views(final(layers)@) == extinguished(
            button::layer_views(old(layers)@),
            touch_views(touches@),
        ),
        final(out)@ == old(out)@ + extinguish_events(
            button::layer_views(old(layers)@),
            touch_views(touches@),
        ),
{
    let ghost all = touch_views(touches@);
    let ghost before = button::layer_views(layers@);
    let n: usize = layers.len();
    let mut l: usize = 0;
    proof {
        assert(before.take(0) =~= Seq::empty());
        assert(out@ + Seq::<InputEvent>::empty() =~= out@);
    }
    while l < n
        invariant
            l <= n,
            all == touch_views(touches@),
            n == before.len(),
            n == layers@.len(),
            out@ == old(out)@ + extinguish_events(before.take(l as int), all),
            forall|k: int|
                0 <= k < l ==> (#[trigger] layers@[k])@ == extinguished(before, all)[k],
            forall|k: int| l <= k < n ==> (#[trigger] layers@[k])@ == before[k],
        decreases n - l,
    {
        proof {
            assert(before.take(l + 1).drop_last() =~= before.take(l as int));
            assert(layers@[l as int]@ == before[l as int]);
        }
        let ghost mid = button::layer_views(layers@);
        let ghost sent = extinguish_events(before.take(l as int), all);
        let ghost now = extinguish_row_events(before[l as int], all, l as int);
        extinguish_layer(out, touches, layers, l);
        proof {
            assert(old(out)@ + sent + now =~= old(out)@ + (sent + now));
            let after = button::layer_views(layers@);
            assert(after.len() == layers@.len());
            assert(mid[l as int] == before[l as int]);
            assert(extinguished(mid, all)[l as int] == extinguished(before, all)[l as int]);
            assert forall|k: int| 0 <= k < n implies (#[trigger] layers@[k])@ == (if k == l {
                extinguished(before, all)[k]
            } else {
                mid[k]
            }) by {
                assert(after[k] == layers@[k]@);
            }
        }
        l += 1;
    }
    proof {
        assert(before.take(n as int) =~= before);
        assert(button::layer_views(layers@) =~= extinguished(before, all));
    }
}

/// Letting go keeps the number of layers.
pub proof fn lemma_released_len(layers: Seq<Seq<ButtonView>>, touches: Seq<(u32, TouchView)>)
    ensures
        released(layers, touches).len() == layers.len(),
    decreases touches.len(),
{
    if touches.len() > 0 {
        let t = touches[0].1;
        lemma_released_len(
            with_highlight(layers, t.layer as int, t.button as int, false),
            touches.drop_first(),
        );
    }
}

/// The layer that a key selects, where `layer_hit` is the layer of the
/// shortcut that it completes.
fn key_layer(rules: &KeyRules, key: u32, layer_hit: Option<usize>) -> (r: Option<usize>)
    ensures
        r == BarView::key_target(*rules, key, layer_hit),
{
    if layer_hit.is_some() {
        layer_hit
    } else if key == KEY_MACRO1 as u32 {
        Some(
            if rules.media_layer_default {
                DEFAULT_LAYER
            } else {
                FN_LAYER
            },
        )
    } else if key == KEY_MACRO2 as u32 {
        Some(2)
    } else if key == KEY_MACRO3 as u32 {
        Some(3)
    } else {
        None
    }
}

impl TouchBar {
    /// Starts with the given layers; `minute` is the current minute.
    pub fn new(layers: Vec<FunctionLayer>, minute: u32) -> (r: TouchBar)
        requires
            layers@.len() > 0,
        ensures
            r@ == BarView::initial(button::layer_views(layers@), minute),
            r@.wf(),
    {
        let r = TouchBar {
            layers,
            touches: Vec::new(),
            active_layer: DEFAULT_LAYER,
            overlay_layer: None,
            fn_toggle_active: false,
            fn_pressed: false,
            fn_pressed_at: None,
            fn_shortcut_used: false,
            keyboard_modifiers: KeyboardModifiers::default(),
            needs_complete_redraw: true,
            last_drawn_layer: usize::MAX,
            last_redraw_minute: minute,
        };
        proof {
            assert(r@.touches =~= Seq::empty());
        }
        r
    }

    /// The layers.
    pub fn layers(&self) -> (r: &Vec<FunctionLayer>)
        ensures
            button::layer_views(r@) == self@.layers,
    {
        &self.layers
    }

    /// The number of the visible layer.
    pub fn active_layer(&self) -> (r: usize)
        ensures
            r == self@.active_layer,
    {
        self.active_layer
    }

    /// How many touches there are.
    pub fn touch_count(&self) -> (r: usize)
        ensures
            r == self@.touches.len(),
    {
        self.touches.len()
    }

    /// How many buttons the visible layer has.
    pub fn visible_buttons(&self) -> (r: usize)
        requires
            self@.wf(),
        ensures
            r == self@.layers[self@.active_layer as int].len(),
    {
        self.layers[self.active_layer].buttons.len()
    }

    /// Lets go of every touched button and forgets the touches.
    pub fn release_all(&mut self, out: &mut Vec<InputEvent>)
        requires
            old(self)@.wf(),
        ensures
            final(self)@ == old(self)@.let_go(),
            final(self)@.wf(),
            final(out)@ == old(out)@ + old(self)@.let_go_events(),
    {
        proof {
            lemma_released_len(self@.layers, self@.touches);
        }
        release_all_held_keys(out, &mut self.touches, &mut self.layers);
        proof {
            assert(self@.touches =~= Seq::empty());
        }
    }

    /// Shows a layer, or tells that there is no such layer. Where it is another layer than the
    /// visible one, `release_keys` tells whether the touches let go first.
    pub fn set_active_layer(
        &mut self,
        out: &mut Vec<InputEvent>,
        requested_layer: usize,
        release_keys: bool,
    ) -> (r: Option<usize>)
        requires
            old(self)@.wf(),
        ensures
            r == old(self)@.refused(requested_layer),
            final(self)@ == old(self)@.showing(requested_layer, release_keys),
            final(self)@.wf(),
            final(out)@ == old(out)@ + old(self)@.showing_events(requested_layer, release_keys),
    {
        proof {
            assert(out@ + Seq::<InputEvent>::empty() =~= out@);
        }
        let Some(new_layer) = resolve_layer_index(requested_layer, self.layers.len()) else {
            return Some(requested_layer);
        };
        proof {
            lemma_released_len(self@.layers, self@.touches);
        }
        if self.active_layer != new_layer {
            if release_keys {
                self.release_all(out);
            }
            self.active_layer = new_layer;
        }
        mark_layer_dirty(&mut self.layers, new_layer);
        self.needs_complete_redraw = true;
        None
    }

    /// Selects a layer, or tells that there is no such layer. Layers from the third on are app and
    /// custom bars that stay up as an overlay; the first two are the pair that
    /// the Fn key switches between.
    pub fn apply_layer_selection(
        &mut self,
        out: &mut Vec<InputEvent>,
        requested_layer: usize,
        release_keys: bool,
    ) -> (r: Option<usize>)
        requires
            old(self)@.wf(),
        ensures
            r == old(self)@.refused(requested_layer),
            final(self)@ == old(self)@.selecting(requested_layer, release_keys),
            final(self)@.wf(),
            final(out)@ == old(out)@ + old(self)@.showing_events(requested_layer, release_keys),
    {
        proof {
            assert(out@ + Seq::<InputEvent>::empty() =~= out@);
        }
        let Some(new_layer) = resolve_layer_index(requested_layer, self.layers.len()) else {
            return Some(requested_layer);
        };
        if new_layer <= 1 {
            self.overlay_layer = None;
            self.fn_toggle_active = new_layer == FN_LAYER;
        } else {
            self.overlay_layer = Some(new_layer);
        }
        self.set_active_layer(out, new_layer, release_keys)
    }

    fn press_fn(&mut self, out: &mut Vec<InputEvent>, rules: &KeyRules, now: u64) -> (r: Option<
        usize,
    >)
        requires
            old(self)@.wf(),
        ensures
            r == old(self)@.refused(old(self)@.fn_down_target(*rules)),
            final(self)@ == old(self)@.fn_down(*rules, now),
            final(self)@.wf(),
            final(out)@ == old(out)@ + old(self)@.showing_events(
                old(self)@.fn_down_target(*rules),
                true,
            ),
    {
        self.fn_pressed = true;
        self.fn_pressed_at = Some(now);
        self.fn_shortcut_used = false;
        match rules.fn_mode {
            FnMode::Hold | FnMode::Smart => self.set_active_layer(out, FN_LAYER, true),
            FnMode::Toggle => {
                self.fn_toggle_active = !self.fn_toggle_active;
                let target: usize = fn_toggle_target(
                    self.fn_toggle_active,
                    DEFAULT_LAYER,
                    FN_LAYER,
                );
                self.set_active_layer(out, target, true)
            },
        }
    }

    fn show_baseline(&mut self, out: &mut Vec<InputEvent>) -> (r: Option<usize>)
        requires
            old(self)@.wf(),
        ensures
            r == old(self)@.refused(old(self)@.baseline()),
            final(self)@ == old(self)@.showing(old(self)@.baseline(), true),
            final(self)@.wf(),
            final(out)@ == old(out)@ + old(self)@.showing_events(old(self)@.baseline(), true),
    {
        let target: usize = baseline_layer(
            self.overlay_layer,
            self.fn_toggle_active,
            DEFAULT_LAYER,
            FN_LAYER,
        );
        self.set_active_layer(out, target, true)
    }

    #[verifier::rlimit(50)]
    fn release_fn(&mut self, out: &mut Vec<InputEvent>, rules: &KeyRules, now: u64) -> (r: Option<
        usize,
    >)
        requires
            old(self)@.wf(),
        ensures
            r == (match old(self)@.fn_up_target(*rules, now) {
                Some(layer) => old(self)@.refused(layer),
                None => None,
            }),
            final(self)@ == old(self)@.fn_up(*rules, now),
            final(self)@.wf(),
            final(out)@ == old(out)@ + (match old(self)@.fn_up_target(*rules, now) {
                Some(layer) => old(self)@.showing_events(layer, true),
                None => Seq::empty(),
            }),
    {
        proof {
            assert(out@ + Seq::<InputEvent>::empty() =~= out@);
        }
        self.fn_pressed = false;
        let mut refused: Option<usize> = None;
        if !self.fn_shortcut_used {
            refused = match rules.fn_mode {
                FnMode::Hold => self.show_baseline(out),
                FnMode::Smart => {
                    if is_quick_tap(self.fn_pressed_at, now, rules.fn_toggle_press_ms) {
                        self.fn_toggle_active = !self.fn_toggle_active;
                        let target: usize = fn_toggle_target(
                            self.fn_toggle_active,
                            DEFAULT_LAYER,
                            FN_LAYER,
                        );
                        self.set_active_layer(out, target, true)
                    } else {
                        self.show_baseline(out)
                    }
                },
                FnMode::Toggle => None,
            };
        }
        self.fn_pressed_at = None;
        self.fn_shortcut_used = false;
        refused
    }

    /// A key of the keyboard goes down or up, given whether it completes the
    /// shortcut for drawing everything again and which layer the shortcuts
    /// select for it.
    #[verifier::rlimit(50)]
    pub fn apply_key(
        &mut self,
        out: &mut Vec<InputEvent>,
        rules: &KeyRules,
        key: u32,
        pressed: bool,
        now: u64,
        redraw_hit: bool,
        layer_hit: Option<usize>,
    ) -> (r: Option<usize>)
        requires
            old(self)@.wf(),
        ensures
            r == old(self)@.refused_by_key(*rules, key, pressed, now, redraw_hit, layer_hit),
            final(self)@ == old(self)@.key_step(*rules, key, pressed, now, redraw_hit, layer_hit),
            final(self)@.wf(),
            final(out)@ == old(out)@ + old(self)@.key_events(
                *rules,
                key,
                pressed,
                now,
                redraw_hit,
                layer_hit,
            ),
    {
        proof {
            assert(out@ + Seq::<InputEvent>::empty() =~= out@);
        }
        if key == KEY_FN as u32 {
            return if pressed {
                self.press_fn(out, rules, now)
            } else {
                self.release_fn(out, rules, now)
            };
        }
        self.keyboard_modifiers.update(key, pressed);
        if !pressed {
            return None;
        }
        if redraw_hit {
            mark_all_layers_dirty(&mut self.layers);
            self.needs_complete_redraw = true;
            None
        } else {
            if layer_hit.is_some() {
                self.fn_shortcut_used = true;
            }
            match key_layer(rules, key, layer_hit) {
                Some(layer) => self.apply_layer_selection(out, layer, true),
                None => None,
            }
        }
    }

    /// A key of the keyboard goes down or up. The Fn key switches between the
    /// default layer and the Fn layer as the options say; any other key can
    /// complete a shortcut when it goes down. Tells which layer was asked for
    /// where there is no such layer.
    pub fn handle_key(
        &mut self,
        out: &mut Vec<InputEvent>,
        cfg: &Config,
        key: u32,
        pressed: bool,
        now: u64,
    ) -> (r: Option<usize>)
        requires
            old(self)@.wf(),
        ensures
            r == old(self)@.refused_by_key(
                key_rules(*cfg),
                key,
                pressed,
                now,
                old(self)@.redraw_hit(*cfg, key, pressed),
                old(self)@.layer_hit(*cfg, key, pressed),
            ),
            final(self)@ == old(self)@.key_step(
                key_rules(*cfg),
                key,
                pressed,
                now,
                old(self)@.redraw_hit(*cfg, key, pressed),
                old(self)@.layer_hit(*cfg, key, pressed),
            ),
            final(self)@.wf(),
            final(out)@ == old(out)@ + old(self)@.key_events(
                key_rules(*cfg),
                key,
                pressed,
                now,
                old(self)@.redraw_hit(*cfg, key, pressed),
                old(self)@.layer_hit(*cfg, key, pressed),
            ),
    {
        let rules = KeyRules {
            fn_mode: cfg.fn_mode,
            fn_toggle_press_ms: cfg.fn_toggle_press_ms,
            media_layer_default: cfg.media_layer_default,
        };
        let mut modifiers = self.keyboard_modifiers;
        modifiers.update(key, pressed);
        let redraw_hit = cfg.redraw_shortcut.matches(key, self.fn_pressed, &modifiers, false);
        let layer_hit = layer_for_shortcut(cfg, key, self.fn_pressed, &modifiers);
        self.apply_key(out, &rules, key, pressed, now, redraw_hit, layer_hit)
    }

    fn find_slot(&self, slot: u32) -> (r: Option<usize>)
        requires
            self@.wf(),
        ensures
            slot_place(self@.touches, slot) == (match r {
                Some(i) => Some(i as int),
                None => None,
            }),
            r matches Some(i) ==> i < self.touches@.len(),
    {
        let mut i: usize = 0;
        while i < self.touches.len()
            invariant
                i <= self.touches@.len(),
                self@.wf(),
                forall|j: int| 0 <= j < i ==> (#[trigger] self@.touches[j]).0 != slot,
            decreases self.touches.len() - i,
        {
            proof {
                assert(self@.touches[i as int].0 == self.touches@[i as int].0);
            }
            if self.touches[i].0 == slot {
                return Some(i);
            }
            i += 1;
        }
        None
    }

    fn take_touch(&mut self, out: &mut Vec<InputEvent>, slot: u32) -> (r: Option<ActiveTouch>)
        requires
            old(self)@.wf(),
        ensures
            final(self)@ == old(self)@.lifted(slot),
            final(self)@.wf(),
            final(out)@ == old(out)@ + old(self)@.lifted_events(slot),
            slot_place(final(self)@.touches, slot) is None,
            (match r {
                Some(touch) => touch@.command,
                None => None,
            }) == old(self)@.lifted_command(slot),
    {
        let ghost before = self@;
        match self.find_slot(slot) {
            None => {
                proof {
                    assert(out@ + Seq::<InputEvent>::empty() =~= out@);
                }
                None
            },
            Some(i) => {
                proof {
                    assert(before.touches[i as int] == (
                        self.touches@[i as int].0,
                        self.touches@[i as int].1@,
                    ));
                }
                let (_, touch) = self.touches.remove(i);
                proof {
                    assert(self@.touches =~= before.touches.remove(i as int));
                    assert forall|a: int, b: int| 0 <= a < b < self@.touches.len() implies (
                    #[trigger] self@.touches[a]).0 != (#[trigger] self@.touches[b]).0 by {
                        let p = if a < i {
                            a
                        } else {
                            a + 1
                        };
                        let q = if b < i {
                            b
                        } else {
                            b + 1
                        };
                        assert(before.touches[p].0 != before.touches[q].0);
                    }
                    assert forall|a: int| 0 <= a < self@.touches.len() implies (
                    #[trigger] self@.touches[a]).0 != slot by {
                        if a < i {
                            assert(before.touches[a].0 != before.touches[i as int].0);
                        } else {
                            assert(before.touches[i as int].0 != before.touches[a + 1].0);
                        }
                    }
                }
                release_button(out, &mut self.layers, touch.layer, touch.button);
                Some(touch)
            },
        }
    }

    /// A finger comes down in `slot`, on the button `hit` of the visible layer
    /// or beside the buttons. Tells which layer the button asks for where there
    /// is no such layer.
    pub fn touch_down(&mut self, out: &mut Vec<InputEvent>, slot: u32, hit: Option<u32>) -> (r:
        Option<usize>)
        requires
            old(self)@.wf(),
            hit matches Some(b) ==> b < old(self)@.layers[old(self)@.active_layer as int].len(),
        ensures
            r == old(self)@.refused_by_touch(slot, hit),
            final(self)@ == old(self)@.touch_down(slot, hit),
            final(self)@.wf(),
            final(out)@ == old(out)@ + old(self)@.touch_down_events(slot, hit),
    {
        let ghost s0 = self@;
        let ghost out0 = out@;
        let _ = self.take_touch(out, slot);
        let ghost s = self@;
        let ghost up = s0.lifted_events(slot);
        proof {
            assert(out@ + Seq::<InputEvent>::empty() =~= out@);
            assert(out0 + up + Seq::<InputEvent>::empty() =~= out0 + (up
                + Seq::<InputEvent>::empty()));
            assert(s.layers[s.active_layer as int].len() == s0.layers[s0.active_layer as int].len());
        }
        let Some(btn) = hit else {
            return None;
        };
        let touch_layer: usize = self.active_layer;
        let at: usize = btn as usize;
        proof {
            assert(s.layers[touch_layer as int][at as int]
                == self.layers@[touch_layer as int].buttons@[at as int]@);
        }
        if !self.layers[touch_layer].buttons[at].is_interactive() {
            return None;
        }
        let command = clone_opt(&self.layers[touch_layer].buttons[at].command);
        let switch_to_layer = self.layers[touch_layer].buttons[at].switch_to_layer;
        self.layers[touch_layer].buttons[at].tap_key(out);
        proof {
            let want = with_highlight(s.layers, touch_layer as int, at as int, true);
            assert(self@.layers[touch_layer as int] =~= want[touch_layer as int]);
            assert(self@.layers =~= want);
            assert(self@.touches == s.touches);
            let down = touch_events(s.layers, touch_layer as int, at as int);
            assert(out0 + up + down =~= out0 + (up + down));
            assert(out@ + Seq::<InputEvent>::empty() =~= out@);
        }
        let refused = match switch_to_layer {
            Some(layer) => self.apply_layer_selection(out, layer, false),
            None => None,
        };
        let ghost t = self@;
        self.touches.push(
            (slot, ActiveTouch { layer: touch_layer, button: btn, pending_command: command }),
        );
        proof {
            assert(t.touches == s.touches);
            let touch = TouchView {
                layer: touch_layer,
                button: btn,
                command: text::opt_text(command),
            };
            assert(self@.touches =~= t.touches.push((slot, touch)));
            assert forall|a: int, b: int| 0 <= a < b < self@.touches.len() implies (
            #[trigger] self@.touches[a]).0 != (#[trigger] self@.touches[b]).0 by {
                assert(self@.touches[a] == s.touches[a]);
                if b < s.touches.len() {
                    assert(self@.touches[b] == s.touches[b]);
                }
            }
        }
        refused
    }

    /// The finger in `slot` lifts: its button is let go, and the command of
    /// the button is to be run.
    pub fn touch_up(&mut self, out: &mut Vec<InputEvent>, slot: u32) -> (r: Option<String>)
        requires
            old(self)@.wf(),
        ensures
            final(self)@ == old(self)@.lifted(slot),
            final(self)@.wf(),
            final(out)@ == old(out)@ + old(self)@.lifted_events(slot),
            text::opt_text(r) == old(self)@.lifted_command(slot),
    {
        match self.take_touch(out, slot) {
            Some(touch) => touch.pending_command,
            None => None,
        }
    }

    /// The digitizer is gone: the touches let go, and everything is drawn
    /// again.
    pub fn digitizer_removed(&mut self, out: &mut Vec<InputEvent>)
        requires
            old(self)@.wf(),
        ensures
            final(self)@ == old(self)@.unplugged(),
            final(self)@.wf(),
            final(out)@ == old(out)@ + old(self)@.let_go_events(),
    {
        self.release_all(out);
        self.needs_complete_redraw = true;
    }

    /// A new configuration takes effect.
    pub fn reload(&mut self, out: &mut Vec<InputEvent>, layers: Vec<FunctionLayer>)
        requires
            old(self)@.wf(),
            layers@.len() > 0,
        ensures
            final(self)@ == old(self)@.reloaded(button::layer_views(layers@)),
            final(self)@.wf(),
            final(out)@ == old(out)@ + old(self)@.reload_events(button::layer_views(layers@)),
    {
        proof {
            lemma_released_len(button::layer_views(layers@), self@.touches);
        }
        self.layers = layers;
        release_all_held_keys(out, &mut self.touches, &mut self.layers);
        self.active_layer = DEFAULT_LAYER;
        self.fn_pressed = false;
        self.fn_pressed_at = None;
        self.fn_toggle_active = false;
        self.fn_shortcut_used = false;
        self.overlay_layer = None;
        self.last_drawn_layer = usize::MAX;
        self.needs_complete_redraw = true;
        proof {
            assert(self@.touches =~= Seq::empty());
        }
    }

    fn visible_changed(&self) -> (r: bool)
        requires
            self@.wf(),
        ensures
            r == any_changed(self@.layers[self@.active_layer as int]),
    {
        let ghost row = self@.layers[self@.active_layer as int];
        let n: usize = self.layers[self.active_layer].buttons.len();
        let mut i: usize = 0;
        while i < n
            invariant
                i <= n,
                n == row.len(),
                self@.wf(),
                row == self@.layers[self@.active_layer as int],
                forall|j: int| 0 <= j < i ==> !(#[trigger] row[j]).changed,
            decreases n - i,
        {
            proof {
                assert(row[i as int] == self.layers@[self.active_layer as int].buttons@[i as int]@);
            }
            if self.layers[self.active_layer].buttons[i].changed {
                return true;
            }
            i += 1;
        }
        false
    }

    fn visible_clock(&self) -> (r: bool)
        requires
            self@.wf(),
        ensures
            r == shows_time(self@.layers[self@.active_layer as int]),
    {
        let ghost row = self@.layers[self@.active_layer as int];
        let n: usize = self.layers[self.active_layer].buttons.len();
        let mut i: usize = 0;
        while i < n
            invariant
                i <= n,
                n == row.len(),
                self@.wf(),
                row == self@.layers[self@.active_layer as int],
                forall|j: int| 0 <= j < i ==> (#[trigger] row[j]).action.code != KEY_TIME,
            decreases n - i,
        {
            proof {
                assert(row[i as int] == self.layers@[self.active_layer as int].buttons@[i as int]@);
            }
            if self.layers[self.active_layer].buttons[i].action.code == KEY_TIME {
                return true;
            }
            i += 1;
        }
        false
    }

    /// Gets ready to wait for input, and tells how long at most, in
    /// milliseconds. `shift` is given where pixels are shifted: whether a
    /// shift is due, and when the next one is.
    pub fn prepare_poll(&mut self, shift: Option<(bool, i32)>, minute: u32) -> (r: i32)
        requires
            old(self)@.wf(),
        ensures
            final(self)@ == old(self)@.before_poll(shift, minute),
            final(self)@.wf(),
            r == old(self)@.poll_timeout(shift, minute),
    {
        if self.active_layer != self.last_drawn_layer {
            self.needs_complete_redraw = true;
        }
        let mut idle: i32 = TIMEOUT_MS;
        if let Some((due, next)) = shift {
            if due {
                self.needs_complete_redraw = true;
            }
            if next < idle {
                idle = next;
            }
        }
        if minute != self.last_redraw_minute && self.visible_clock() {
            self.needs_complete_redraw = true;
            self.last_redraw_minute = minute;
        }
        if self.touches.len() > 0 || self.needs_complete_redraw || self.visible_changed() {
            INTERACTIVE_POLL_MS
        } else {
            idle
        }
    }

    /// Puts out the highlights that outlived their touch.
    pub fn clear_orphans(&mut self, out: &mut Vec<InputEvent>)
        requires
            old(self)@.wf(),
        ensures
            final(self)@ == old(self)@.without_orphans(),
            final(self)@.wf(),
            final(out)@ == old(out)@ + old(self)@.orphan_events(),
    {
        clear_orphan_highlights(out, &self.touches, &mut self.layers);
    }

    /// Draws the visible layer where that is due: tells what to draw, and
    /// records that it was drawn.
    pub fn draw(&mut self, show_button_outlines: bool) -> (r: Option<Drawing>)
        requires
            old(self)@.wf(),
        ensures
            (r is Some) == old(self)@.drawing_due(),
            r is None ==> final(self)@ == old(self)@,
            r matches Some(drawing) ==> {
                &&& final(self)@ == old(self)@.drawn()
                &&& drawing.layer == old(self)@.active_layer
                &&& drawing.complete == old(self)@.complete_drawing()
                &&& drawing.items@ == button::draw_items(
                    old(self)@.layers[old(self)@.active_layer as int],
                    show_button_outlines,
                    old(self)@.complete_drawing(),
                )
            },
            final(self)@.wf(),
    {
        let complete = self.needs_complete_redraw || self.active_layer != self.last_drawn_layer;
        if !complete && !self.visible_changed() {
            return None;
        }
        let ghost before = self@;
        let layer: usize = self.active_layer;
        let items = self.layers[layer].draw(show_button_outlines, complete);
        self.last_drawn_layer = layer;
        self.needs_complete_redraw = false;
        proof {
            assert(self@.layers =~= before.drawn().layers);
        }
        Some(Drawing { layer, complete, items })
    }
}

/// Tells whether a press of the Fn key was a quick tap.
pub fn is_quick_tap(pressed_at: Option<u64>, now: u64, press_ms: u64) -> (r: bool)
    ensures
        r == quick_tap(pressed_at, now, press_ms),
{
    match pressed_at {
        Some(start) => {
            let elapsed: u64 = now.saturating_sub(start);
            elapsed as u128 <= press_ms as u128 * 1_000_000
        },
        None => press_ms == u64::MAX,
    }
}

} // verus!
