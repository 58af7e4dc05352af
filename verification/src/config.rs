//! Configuration: the options of the two configuration files, how they are
//! merged, and what is built from them.

use crate::button;
use crate::button::{Button, ButtonView, FunctionLayer, ImageView};
use crate::keys::{Key, KEY_ESC};
use crate::shortcut::{KeyboardModifiers, KeyboardShortcut, LayerShortcut};
use crate::text;
use crate::text::{same_str, to_lowercase};
use vstd::prelude::*;
use vstd::string::*;

verus! {

/// The options that the daemon runs with. The fonts are kept by the templates
/// that they are looked up with.
pub struct Config {
    pub media_layer_default: bool,
    pub show_button_outlines: bool,
    pub enable_pixel_shift: bool,
    pub font_renderer: String,
    pub font_style_cairo: String,
    pub bold_cairo: bool,
    pub italic_cairo: bool,
    pub font_template: String,
    pub emoji_font_template: Option<String>,
    pub adaptive_brightness: bool,
    pub active_brightness: u32,
    pub dim_timeout_ms: u64,
    pub off_timeout_ms: u64,
    pub dimmed_brightness: u32,
    pub fn_mode: FnMode,
    pub fn_toggle_press_ms: u64,
    pub layer_shortcuts: Vec<LayerShortcut>,
    pub redraw_shortcut: KeyboardShortcut,
    pub allow_root_commands: bool,
}

/// The icon themes.
pub struct Theme {
    pub media_icon_theme: String,
    pub app_icon_theme: String,
}

/// What the Fn key does: show the Fn layer while held, toggle between the two
/// layers, or toggle on a quick tap and show while held.
#[derive(Clone, Copy, PartialEq, Eq, Structural, Debug)]
pub enum FnMode {
    Hold,
    Toggle,
    Smart,
}

impl FnMode {
    /// The mode that a name in lower case stands for.
    pub open spec fn named(lowered: Seq<char>) -> FnMode {
        if lowered == "toggle"@ {
            FnMode::Toggle
        } else if lowered == "smart"@ {
            FnMode::Smart
        } else {
            FnMode::Hold
        }
    }

    /// The mode that the option stands for.
    pub open spec fn configured(value: Option<String>) -> FnMode {
        match value {
            Some(name) => FnMode::named(text::lowercase(name@)),
            None => FnMode::Hold,
        }
    }

    /// The mode that a name in lower case stands for.
    pub fn from_lowered(lowered: &str) -> (r: FnMode)
        ensures
            r == FnMode::named(lowered@),
    {
        if same_str(lowered, "toggle") {
            FnMode::Toggle
        } else if same_str(lowered, "smart") {
            FnMode::Smart
        } else {
            FnMode::Hold
        }
    }

    /// The mode that the option stands for, in whatever case it is written;
    /// anything else than a known name means `Hold`.
    pub fn from_config(value: Option<String>) -> (r: FnMode)
        ensures
            r == FnMode::configured(value),
            value matches Some(name) ==> vstd::utf8::is_ascii_chars(name@) ==> r == FnMode::named(
                text::ascii_lowered(name@),
            ),
    {
        match value {
            Some(name) => {
                let lowered = to_lowercase(name.as_str());
                FnMode::from_lowered(lowered.as_str())
            },
            None => FnMode::Hold,
        }
    }
}

/// The options as one configuration file gives them.
pub struct ConfigProxy {
    pub media_layer_default: Option<bool>,
    pub special_extended_mode: Option<bool>,
    pub show_button_outlines: Option<bool>,
    pub enable_pixel_shift: Option<bool>,
    pub font_renderer: Option<String>,
    pub font_style: Option<String>,
    pub bold: Option<bool>,
    pub italic: Option<bool>,
    pub font_template: Option<String>,
    pub emoji_font_template: Option<String>,
    pub media_icon_theme: Option<String>,
    pub app_icon_theme: Option<String>,
    pub adaptive_brightness: Option<bool>,
    pub active_brightness: Option<u32>,
    pub dim_timeout_ms: Option<u64>,
    pub off_timeout_ms: Option<u64>,
    pub dimmed_brightness: Option<u32>,
    pub fn_mode: Option<String>,
    pub fn_toggle_press_ms: Option<u64>,
    pub allow_root_commands: Option<bool>,
    pub primary_layer_keys: Option<Vec<ButtonConfig>>,
    pub media_layer_keys: Option<Vec<ButtonConfig>>,
    pub app_layer_keys1: Option<Vec<ButtonConfig>>,
    pub app_layer_keys2: Option<Vec<ButtonConfig>>,
    pub app_layer_keys3: Option<Vec<ButtonConfig>>,
    pub custom_bars: Option<Vec<Vec<ButtonConfig>>>,
    pub layer_shortcuts: Option<Vec<LayerShortcut>>,
    pub redraw_shortcut: Option<KeyboardShortcut>,
    /// Preset buttons of the layout editor; the daemon does not use them.
    pub button_library: Option<Vec<ButtonConfig>>,
}

/// One button as the configuration describes it.
pub struct ButtonConfig {
    pub icon: Option<String>,
    pub path: Option<String>,
    pub mode: Option<String>,
    pub text: Option<String>,
    pub background: Option<bool>,
    pub format: Option<String>,
    pub locale: Option<String>,
    pub command: Option<String>,
    pub switch_to_layer: Option<usize>,
    pub action: Option<String>,
}

/// `first` where it is given, else `second`.
pub open spec fn either<T>(first: Option<T>, second: Option<T>) -> Option<T> {
    if first is Some {
        first
    } else {
        second
    }
}

fn or_else<T>(first: Option<T>, second: Option<T>) -> (r: Option<T>)
    ensures
        r == either(first, second),
{
    match first {
        Some(_) => first,
        None => second,
    }
}

/// The options of `base` with those that `user` gives put in their place. The
/// icon themes and the editor's presets are not among them.
pub open spec fn merged(base: ConfigProxy, user: ConfigProxy) -> ConfigProxy {
    ConfigProxy {
        media_layer_default: either(user.media_layer_default, base.media_layer_default),
        special_extended_mode: either(user.special_extended_mode, base.special_extended_mode),
        show_button_outlines: either(user.show_button_outlines, base.show_button_outlines),
        enable_pixel_shift: either(user.enable_pixel_shift, base.enable_pixel_shift),
        font_renderer: either(user.font_renderer, base.font_renderer),
        font_style: either(user.font_style, base.font_style),
        bold: either(user.bold, base.bold),
        italic: either(user.italic, base.italic),
        font_template: either(user.font_template, base.font_template),
        emoji_font_template: either(user.emoji_font_template, base.emoji_font_template),
        media_icon_theme: base.media_icon_theme,
        app_icon_theme: base.app_icon_theme,
        adaptive_brightness: either(user.adaptive_brightness, base.adaptive_brightness),
        active_brightness: either(user.active_brightness, base.active_brightness),
        dim_timeout_ms: either(user.dim_timeout_ms, base.dim_timeout_ms),
        off_timeout_ms: either(user.off_timeout_ms, base.off_timeout_ms),
        dimmed_brightness: either(user.dimmed_brightness, base.dimmed_brightness),
        fn_mode: either(user.fn_mode, base.fn_mode),
        fn_toggle_press_ms: either(user.fn_toggle_press_ms, base.fn_toggle_press_ms),
        allow_root_commands: either(user.allow_root_commands, base.allow_root_commands),
        primary_layer_keys: either(user.primary_layer_keys, base.primary_layer_keys),
        media_layer_keys: either(user.media_layer_keys, base.media_layer_keys),
        app_layer_keys1: either(user.app_layer_keys1, base.app_layer_keys1),
        app_layer_keys2: either(user.app_layer_keys2, base.app_layer_keys2),
        app_layer_keys3: either(user.app_layer_keys3, base.app_layer_keys3),
        custom_bars: either(user.custom_bars, base.custom_bars),
        layer_shortcuts: either(user.layer_shortcuts, base.layer_shortcuts),
        redraw_shortcut: either(user.redraw_shortcut, base.redraw_shortcut),
        button_library: base.button_library,
    }
}

/// Puts the options that `user` gives in place of those of `base`.
pub fn merge_user_into_base(base: &mut ConfigProxy, user: ConfigProxy)
    ensures
        *final(base) == merged(*old(base), user),
{
    base.media_layer_default = or_else(user.media_layer_default, base.media_layer_default.take());
    base.special_extended_mode =
    or_else(user.special_extended_mode, base.special_extended_mode.take());
    base.show_button_outlines =
    or_else(user.show_button_outlines, base.show_button_outlines.take());
    base.enable_pixel_shift = or_else(user.enable_pixel_shift, base.enable_pixel_shift.take());
    base.font_renderer = or_else(user.font_renderer, base.font_renderer.take());
    base.font_style = or_else(user.font_style, base.font_style.take());
    base.bold = or_else(user.bold, base.bold.take());
    base.italic = or_else(user.italic, base.italic.take());
    base.font_template = or_else(user.font_template, base.font_template.take());
    base.emoji_font_template = or_else(user.emoji_font_template, base.emoji_font_template.take());
    base.adaptive_brightness = or_else(user.adaptive_brightness, base.adaptive_brightness.take());
    base.dim_timeout_ms = or_else(user.dim_timeout_ms, base.dim_timeout_ms.take());
    base.off_timeout_ms = or_else(user.off_timeout_ms, base.off_timeout_ms.take());
    base.dimmed_brightness = or_else(user.dimmed_brightness, base.dimmed_brightness.take());
    base.fn_mode = or_else(user.fn_mode, base.fn_mode.take());
    base.fn_toggle_press_ms = or_else(user.fn_toggle_press_ms, base.fn_toggle_press_ms.take());
    base.allow_root_commands = or_else(user.allow_root_commands, base.allow_root_commands.take());
    base.media_layer_keys = or_else(user.media_layer_keys, base.media_layer_keys.take());
    base.primary_layer_keys = or_else(user.primary_layer_keys, base.primary_layer_keys.take());
    base.app_layer_keys1 = or_else(user.app_layer_keys1, base.app_layer_keys1.take());
    base.app_layer_keys2 = or_else(user.app_layer_keys2, base.app_layer_keys2.take());
    base.app_layer_keys3 = or_else(user.app_layer_keys3, base.app_layer_keys3.take());
    base.custom_bars = or_else(user.custom_bars, base.custom_bars.take());
    base.layer_shortcuts = or_else(user.layer_shortcuts, base.layer_shortcuts.take());
    base.redraw_shortcut = or_else(user.redraw_shortcut, base.redraw_shortcut.take());
    base.active_brightness = or_else(user.active_brightness, base.active_brightness.take());
}

/// The options of both files: those of `base`, overridden by `user` where a
/// user file could be read.
pub open spec fn effective(base: ConfigProxy, user: Option<ConfigProxy>) -> ConfigProxy {
    match user {
        Some(u) => merged(base, u),
        None => base,
    }
}

/// The shortcut that redraws everything: Fn, Shift and the comma key.
pub open spec fn redraw_default() -> KeyboardShortcut {
    KeyboardShortcut {
        key: None,
        code: Some(51),
        require_fn: Some(true),
        ctrl: None,
        alt: None,
        shift: Some(true),
        super_key: None,
    }
}

/// The shortcut that redraws everything.
pub fn default_redraw_shortcut() -> (r: KeyboardShortcut)
    ensures
        r == redraw_default(),
{
    KeyboardShortcut {
        key: None,
        code: Some(51),
        require_fn: Some(true),
        ctrl: None,
        alt: None,
        shift: Some(true),
        super_key: None,
    }
}

/// Fn and a digit select the layer of that number. The codes of the digits
/// 1 to 9 are 2 to 10, that of 0 is 11.
pub open spec fn digit_shortcut(layer: int) -> LayerShortcut {
    LayerShortcut {
        key: None,
        code: Some(
            if layer == 0 {
                11
            } else {
                (layer + 1) as u32
            },
        ),
        layer: layer as usize,
        require_fn: Some(true),
        ctrl: None,
        alt: None,
        shift: None,
        super_key: None,
    }
}

/// The shortcuts that select layers 0 to 9.
pub open spec fn digit_shortcuts() -> Seq<LayerShortcut> {
    Seq::new(10, |i: int| digit_shortcut(i))
}

/// The shortcuts that select layers 0 to 9, in that order.
pub fn default_layer_shortcuts() -> (r: Vec<LayerShortcut>)
    ensures
        r@ == digit_shortcuts(),
{
    let mut shortcuts: Vec<LayerShortcut> = Vec::new();
    let mut layer: usize = 0;
    while layer < 10
        invariant
            layer <= 10,
            shortcuts@.len() == layer,
            forall|i: int| 0 <= i < layer ==> #[trigger] shortcuts@[i] == digit_shortcut(i),
        decreases 10 - layer,
    {
        shortcuts.push(
            LayerShortcut {
                key: None,
                code: Some(
                    if layer == 0 {
                        11
                    } else {
                        layer as u32 + 1
                    },
                ),
                layer,
                require_fn: Some(true),
                ctrl: None,
                alt: None,
                shift: None,
                super_key: None,
            },
        );
        layer += 1;
    }
    proof {
        assert(shortcuts@ =~= digit_shortcuts());
    }
    shortcuts
}

/// The list of buttons is given and describes a layer.
pub open spec fn layer_given(keys: Option<Vec<ButtonConfig>>) -> bool {
    keys is Some && button::describes_layer(keys->0@)
}

/// Every further bar describes a layer.
pub open spec fn bars_valid(bars: Option<Vec<Vec<ButtonConfig>>>) -> bool {
    bars matches Some(all) ==> forall|i: int|
        0 <= i < all@.len() ==> button::describes_layer((#[trigger] all@[i])@)
}

impl ConfigProxy {
    /// The options that have no default are given.
    pub open spec fn options_given(self) -> bool {
        &&& self.media_layer_default is Some
        &&& self.special_extended_mode is Some
        &&& self.show_button_outlines is Some
        &&& self.enable_pixel_shift is Some
        &&& self.adaptive_brightness is Some
        &&& self.font_renderer is Some
        &&& self.font_style is Some
        &&& self.bold is Some
        &&& self.italic is Some
        &&& self.font_template is Some
        &&& self.active_brightness is Some
    }

    /// The five named layers are given and all bars describe layers.
    pub open spec fn layers_given(self) -> bool {
        &&& layer_given(self.media_layer_keys)
        &&& layer_given(self.primary_layer_keys)
        &&& layer_given(self.app_layer_keys1)
        &&& layer_given(self.app_layer_keys2)
        &&& layer_given(self.app_layer_keys3)
        &&& bars_valid(self.custom_bars)
    }

    /// The options suffice to run.
    pub open spec fn complete(self) -> bool {
        self.options_given() && self.layers_given()
    }

    /// The named layers in the order of their numbers. The first is the
    /// default layer, the second the one of the Fn key; in extended mode the
    /// first app layer stands in for the media layer, and the other two
    /// follow.
    pub open spec fn named_layers(self) -> Seq<Seq<ButtonView>> {
        let media = button::described_layer(self.media_layer_keys->0@);
        let primary = button::described_layer(self.primary_layer_keys->0@);
        let app1 = button::described_layer(self.app_layer_keys1->0@);
        let app2 = button::described_layer(self.app_layer_keys2->0@);
        let app3 = button::described_layer(self.app_layer_keys3->0@);
        if self.media_layer_default->0 {
            if self.special_extended_mode->0 {
                seq![app1, primary, app2, app3]
            } else {
                seq![media, primary]
            }
        } else {
            if self.special_extended_mode->0 {
                seq![primary, app1, app2, app3]
            } else {
                seq![primary, media]
            }
        }
    }

    /// The further bars.
    pub open spec fn custom_layers(self) -> Seq<Seq<ButtonView>> {
        match self.custom_bars {
            Some(bars) => Seq::new(
                bars@.len(),
                |i: int| button::described_layer(bars@[i]@),
            ),
            None => Seq::empty(),
        }
    }

    /// All layers on a bar of the given width.
    pub open spec fn layers(self, width: u16) -> Seq<Seq<ButtonView>> {
        with_escape(self.named_layers() + self.custom_layers(), width)
    }
}

/// The Escape key of bars that are wide enough to have no such key beside
/// them.
pub open spec fn escape_button() -> ButtonView {
    ButtonView::fresh(ImageView::Text("esc"@), Key { code: KEY_ESC }, true, None, None)
}

/// The layers, each with the Escape key in front where the bar is wide enough.
pub open spec fn with_escape(layers: Seq<Seq<ButtonView>>, width: u16) -> Seq<Seq<ButtonView>> {
    if width >= 2170 {
        Seq::new(layers.len(), |i: int| seq![escape_button()] + layers[i])
    } else {
        layers
    }
}

/// `cfg` holds the options of `p`, with the defaults of those that are not
/// given.
pub open spec fn holds_options(cfg: Config, p: ConfigProxy) -> bool {
    &&& cfg.media_layer_default == p.media_layer_default->0
    &&& cfg.show_button_outlines == p.show_button_outlines->0
    &&& cfg.enable_pixel_shift == p.enable_pixel_shift->0
    &&& cfg.adaptive_brightness == p.adaptive_brightness->0
    &&& cfg.font_renderer == p.font_renderer->0
    &&& cfg.font_style_cairo == p.font_style->0
    &&& cfg.bold_cairo == p.bold->0
    &&& cfg.italic_cairo == p.italic->0
    &&& cfg.font_template == p.font_template->0
    &&& cfg.emoji_font_template == p.emoji_font_template
    &&& cfg.active_brightness == p.active_brightness->0
    &&& cfg.dim_timeout_ms == or_value(p.dim_timeout_ms, 30_000)
    &&& cfg.off_timeout_ms == or_value(p.off_timeout_ms, 60_000)
    &&& cfg.dimmed_brightness == or_value(p.dimmed_brightness, 1)
    &&& cfg.fn_mode == FnMode::configured(p.fn_mode)
    &&& cfg.fn_toggle_press_ms == or_value(p.fn_toggle_press_ms, 120)
    &&& cfg.layer_shortcuts@ == match p.layer_shortcuts {
        Some(given) => given@,
        None => digit_shortcuts(),
    }
    &&& cfg.redraw_shortcut == or_value(p.redraw_shortcut, redraw_default())
    &&& cfg.allow_root_commands == or_value(p.allow_root_commands, false)
}

/// The value of an option, or `default` where it is not given.
pub open spec fn or_value<T>(given: Option<T>, default: T) -> T {
    match given {
        Some(v) => v,
        None => default,
    }
}

fn is_layer_given(keys: &Option<Vec<ButtonConfig>>) -> (r: bool)
    ensures
        r == layer_given(*keys),
{
    match keys {
        Some(k) => FunctionLayer::is_valid(k),
        None => false,
    }
}

fn are_bars_valid(bars: &Option<Vec<Vec<ButtonConfig>>>) -> (r: bool)
    ensures
        r == bars_valid(*bars),
{
    match bars {
        Some(all) => {
            let mut i: usize = 0;
            while i < all.len()
                invariant
                    i <= all@.len(),
                    *bars == Some(*all),
                    forall|j: int| 0 <= j < i ==> button::describes_layer((#[trigger] all@[j])@),
                decreases all.len() - i,
            {
                if !FunctionLayer::is_valid(&all[i]) {
                    proof {
                        assert(!button::describes_layer(bars->0@[i as int]@));
                    }
                    return false;
                }
                i += 1;
            }
            true
        },
        None => true,
    }
}

impl ConfigProxy {
    /// Tells whether the options suffice to run.
    pub fn is_complete(&self) -> (r: bool)
        ensures
            r == self.complete(),
    {
        self.media_layer_default.is_some() && self.special_extended_mode.is_some()
            && self.show_button_outlines.is_some() && self.enable_pixel_shift.is_some()
            && self.adaptive_brightness.is_some() && self.font_renderer.is_some()
            && self.font_style.is_some() && self.bold.is_some() && self.italic.is_some()
            && self.font_template.is_some() && self.active_brightness.is_some() && is_layer_given(
            &self.media_layer_keys,
        ) && is_layer_given(&self.primary_layer_keys) && is_layer_given(&self.app_layer_keys1)
            && is_layer_given(&self.app_layer_keys2) && is_layer_given(&self.app_layer_keys3)
            && are_bars_valid(&self.custom_bars)
    }
}

fn value_or<T>(given: Option<T>, default: T) -> (r: T)
    ensures
        r == or_value(given, default),
{
    match given {
        Some(v) => v,
        None => default,
    }
}

fn push_bars(layers: &mut Vec<FunctionLayer>, bars: Option<Vec<Vec<ButtonConfig>>>)
    requires
        bars_valid(bars),
    ensures
        button::layer_views(final(layers)@) == button::layer_views(old(layers)@) + (match bars {
            Some(all) => Seq::new(all@.len(), |i: int| button::described_layer(all@[i]@)),
            None => Seq::empty(),
        }),
{
    let ghost before = button::layer_views(layers@);
    if let Some(all) = bars {
        let ghost descriptions = all@;
        for bar in it: all
            invariant
                it.seq() == descriptions,
                forall|i: int|
                    0 <= i < descriptions.len() ==> button::describes_layer(
                        (#[trigger] descriptions[i])@,
                    ),
                button::layer_views(layers@) == before + Seq::new(
                    it.index() as nat,
                    |i: int| button::described_layer(descriptions[i]@),
                ),
        {
            let ghost so_far = button::layer_views(layers@);
            layers.push(FunctionLayer::with_config(bar));
            proof {
                assert(button::layer_views(layers@) =~= so_far.push(
                    button::described_layer(bar@),
                ));
                assert(button::layer_views(layers@) =~= before + Seq::new(
                    (it.index() + 1) as nat,
                    |i: int| button::described_layer(descriptions[i]@),
                ));
            }
        }
    } else {
        proof {
            assert(before + Seq::<Seq<ButtonView>>::empty() =~= before);
        }
    }
}

fn push_escape(layers: &mut Vec<FunctionLayer>, width: u16)
    ensures
        button::layer_views(final(layers)@) == with_escape(
            button::layer_views(old(layers)@),
            width,
        ),
{
    let ghost before = button::layer_views(layers@);
    if width >= 2170 {
        let n: usize = layers.len();
        let mut i: usize = 0;
        while i < n
            invariant
                i <= n,
                n == before.len(),
                n == layers@.len(),
                forall|k: int|
                    0 <= k < i ==> (#[trigger] layers@[k])@ == seq![escape_button()] + before[k],
                forall|k: int| i <= k < n ==> (#[trigger] layers@[k])@ == before[k],
            decreases n - i,
        {
            let escape = Button::new_text(
                "esc".to_owned(),
                Key { code: KEY_ESC },
                true,
                None,
                None,
            );
            proof {
                assert(layers@[i as int]@ == before[i as int]);
            }
            let ghost row = layers@[i as int].buttons@;
            layers[i].buttons.insert(0, escape);
            proof {
                assert(layers@[i as int].buttons@ == row.insert(0, escape));
                assert(layers@[i as int]@ =~= seq![escape_button()] + button::button_views(row));
            }
            i += 1;
        }
        proof {
            assert(button::layer_views(layers@) =~= with_escape(before, width));
        }
    }
}

/// Builds the options and the layers, once the files are merged.
pub fn load_config(base: ConfigProxy, width: u16) -> (r: (Config, Vec<FunctionLayer>))
    requires
        base.complete(),
    ensures
        holds_options(r.0, base),
        button::layer_views(r.1@) == base.layers(width),
{
    let ghost p = base;
    let media_layer = FunctionLayer::with_config(base.media_layer_keys.unwrap());
    let fkey_layer = FunctionLayer::with_config(base.primary_layer_keys.unwrap());
    let app_layer1 = FunctionLayer::with_config(base.app_layer_keys1.unwrap());
    let app_layer2 = FunctionLayer::with_config(base.app_layer_keys2.unwrap());
    let app_layer3 = FunctionLayer::with_config(base.app_layer_keys3.unwrap());
    let mut layers: Vec<FunctionLayer> = Vec::new();
    if base.media_layer_default.unwrap() {
        if base.special_extended_mode.unwrap() {
            layers.push(app_layer1);
            layers.push(fkey_layer);
            layers.push(app_layer2);
            layers.push(app_layer3);
        } else {
            layers.push(media_layer);
            layers.push(fkey_layer);
        }
    } else {
        if base.special_extended_mode.unwrap() {
            layers.push(fkey_layer);
            layers.push(app_layer1);
            layers.push(app_layer2);
            layers.push(app_layer3);
        } else {
            layers.push(fkey_layer);
            layers.push(media_layer);
        }
    }
    proof {
        assert(button::layer_views(layers@) =~= p.named_layers());
    }
    push_bars(&mut layers, base.custom_bars);
    push_escape(&mut layers, width);
    let layer_shortcuts = match base.layer_shortcuts {
        Some(given) => given,
        None => default_layer_shortcuts(),
    };
    let redraw_shortcut = match base.redraw_shortcut {
        Some(given) => given,
        None => default_redraw_shortcut(),
    };
    let cfg = Config {
        media_layer_default: base.media_layer_default.unwrap(),
        show_button_outlines: base.show_button_outlines.unwrap(),
        enable_pixel_shift: base.enable_pixel_shift.unwrap(),
        adaptive_brightness: base.adaptive_brightness.unwrap(),
        font_renderer: base.font_renderer.unwrap(),
        font_style_cairo: base.font_style.unwrap(),
        bold_cairo: base.bold.unwrap(),
        italic_cairo: base.italic.unwrap(),
        font_template: base.font_template.unwrap(),
        emoji_font_template: base.emoji_font_template,
        active_brightness: base.active_brightness.unwrap(),
        dim_timeout_ms: value_or(base.dim_timeout_ms, 30_000),
        off_timeout_ms: value_or(base.off_timeout_ms, 60_000),
        dimmed_brightness: value_or(base.dimmed_brightness, 1),
        fn_mode: FnMode::from_config(base.fn_mode),
        fn_toggle_press_ms: value_or(base.fn_toggle_press_ms, 120),
        layer_shortcuts,
        redraw_shortcut,
        allow_root_commands: value_or(base.allow_root_commands, false),
    };
    (cfg, layers)
}

/// The themes of the base file, overridden by those of the user file.
pub open spec fn effective_theme(base: ConfigProxy, user: Option<ConfigProxy>) -> (
    Option<String>,
    Option<String>,
) {
    match user {
        Some(u) => (
            either(u.media_icon_theme, base.media_icon_theme),
            either(u.app_icon_theme, base.app_icon_theme),
        ),
        None => (base.media_icon_theme, base.app_icon_theme),
    }
}

/// What happened around the configuration file of the user. A watch on the
/// file is known by a number.
#[derive(Clone, Copy, PartialEq, Eq, Structural, Debug)]
pub enum ConfigEvent {
    /// It is time to look for changes.
    Poll,
    /// A watch was set, or the file does not exist.
    Armed(Option<u32>),
    /// A watch reported a change.
    Changed(u32),
    /// The files were read again, and the watch was set once more.
    Reloaded(bool, Option<u32>),
}

/// What to do about it.
#[derive(Clone, Copy, PartialEq, Eq, Structural, Debug)]
pub enum ConfigAction {
    /// Set a watch on the file.
    Arm,
    /// Read the pending changes.
    Read,
    /// Read the files again.
    Reload,
    /// Put the new configuration into effect.
    Apply,
    /// Nothing.
    Keep,
}

/// Keeps an eye on the configuration file of the user.
pub struct ConfigManager {
    pub watch_desc: Option<u32>,
}

/// The watch after an event and the answer to it.
pub open spec fn config_step(watch: Option<u32>, event: ConfigEvent) -> (Option<u32>, ConfigAction) {
    match event {
        ConfigEvent::Poll => (
            watch,
            if watch is None {
                ConfigAction::Arm
            } else {
                ConfigAction::Read
            },
        ),
        ConfigEvent::Armed(set) => (set, ConfigAction::Keep),
        ConfigEvent::Changed(wd) => (
            watch,
            if watch == Some(wd) {
                ConfigAction::Reload
            } else {
                ConfigAction::Keep
            },
        ),
        ConfigEvent::Reloaded(loaded, set) => (
            set,
            if loaded {
                ConfigAction::Apply
            } else {
                ConfigAction::Keep
            },
        ),
    }
}

impl ConfigManager {
    /// Starts with the watch that was set, where the file exists.
    pub fn new(watch_desc: Option<u32>) -> (r: ConfigManager)
        ensures
            r.watch_desc == watch_desc,
    {
        ConfigManager { watch_desc }
    }

    /// Builds the options and the layers from the two files.
    pub fn load_config(
        &self,
        base: ConfigProxy,
        user: Option<ConfigProxy>,
        width: u16,
    ) -> (r: (Config, Vec<FunctionLayer>))
        requires
            effective(base, user).complete(),
        ensures
            holds_options(r.0, effective(base, user)),
            button::layer_views(r.1@) == effective(base, user).layers(width),
    {
        let mut all = base;
        if let Some(u) = user {
            merge_user_into_base(&mut all, u);
        }
        load_config(all, width)
    }

    /// Builds the options and the layers from the two files, where the
    /// options suffice.
    pub fn try_load_config(
        &self,
        base: ConfigProxy,
        user: Option<ConfigProxy>,
        width: u16,
    ) -> (r: Option<(Config, Vec<FunctionLayer>)>)
        ensures
            (r is Some) == effective(base, user).complete(),
            r matches Some(parts) ==> {
                &&& holds_options(parts.0, effective(base, user))
                &&& button::layer_views(parts.1@) == effective(base, user).layers(width)
            },
    {
        let mut all = base;
        if let Some(u) = user {
            merge_user_into_base(&mut all, u);
        }
        if !all.is_complete() {
            return None;
        }
        Some(self.load_config(all, None, width))
    }

    /// The icon themes of the two files.
    pub fn load_theme(&self, base: ConfigProxy, user: Option<ConfigProxy>) -> (r: Theme)
        requires
            effective_theme(base, user).0 is Some,
            effective_theme(base, user).1 is Some,
        ensures
            Some(r.media_icon_theme) == effective_theme(base, user).0,
            Some(r.app_icon_theme) == effective_theme(base, user).1,
    {
        let mut media = base.media_icon_theme;
        let mut app = base.app_icon_theme;
        if let Some(u) = user {
            media = or_else(u.media_icon_theme, media);
            app = or_else(u.app_icon_theme, app);
        }
        Theme { media_icon_theme: media.unwrap(), app_icon_theme: app.unwrap() }
    }

    /// Answers an event: a change that the current watch reports means that
    /// the files are read again, and what was read takes effect where reading
    /// succeeded. Changes are only reported while a watch is set.
    pub fn update_config(&mut self, event: ConfigEvent) -> (r: ConfigAction)
        requires
            event is Changed ==> old(self).watch_desc is Some,
        ensures
            (final(self).watch_desc, r) == config_step(old(self).watch_desc, event),
    {
        match event {
            ConfigEvent::Poll => if self.watch_desc.is_none() {
                ConfigAction::Arm
            } else {
                ConfigAction::Read
            },
            ConfigEvent::Armed(set) => {
                self.watch_desc = set;
                ConfigAction::Keep
            },
            ConfigEvent::Changed(wd) => {
                if wd == self.watch_desc.unwrap() {
                    ConfigAction::Reload
                } else {
                    ConfigAction::Keep
                }
            },
            ConfigEvent::Reloaded(loaded, set) => {
                self.watch_desc = set;
                if loaded {
                    ConfigAction::Apply
                } else {
                    ConfigAction::Keep
                }
            },
        }
    }
}

/// The layer for a key: of the shortcuts that were hit, the one with the
/// highest priority, and of several such the last.
pub open spec fn best_shortcut(shortcuts: Seq<LayerShortcut>, hits: Seq<bool>) -> Option<int>
    decreases shortcuts.len(),
{
    if shortcuts.len() == 0 {
        None
    } else {
        let earlier = best_shortcut(shortcuts.drop_last(), hits);
        let last = shortcuts.len() - 1;
        if !hits[last] {
            earlier
        } else if earlier is Some && shortcuts[last].priority() < shortcuts[earlier->0].priority() {
            earlier
        } else {
            Some(last as int)
        }
    }
}

/// The layer of the best shortcut that was hit.
pub open spec fn best_layer(shortcuts: Seq<LayerShortcut>, hits: Seq<bool>) -> Option<usize> {
    match best_shortcut(shortcuts, hits) {
        Some(i) => Some(shortcuts[i].layer),
        None => None,
    }
}

/// Which shortcuts a key completes.
pub open spec fn shortcut_hits(
    shortcuts: Seq<LayerShortcut>,
    key: u32,
    fn_pressed: bool,
    modifiers: KeyboardModifiers,
) -> Seq<bool> {
    Seq::new(
        shortcuts.len(),
        |i: int|
            shortcuts[i].hit_by(
                shortcuts[i].as_shortcut().named_key(),
                key,
                fn_pressed,
                modifiers,
            ),
    )
}

/// Of the shortcuts that were hit none has a higher priority than the best,
/// and none of the same priority stands behind it. There is a best one as
/// soon as one was hit.
pub proof fn best_shortcut_is_best(shortcuts: Seq<LayerShortcut>, hits: Seq<bool>)
    requires
        shortcuts.len() <= hits.len(),
    ensures
        (best_shortcut(shortcuts, hits) is Some) == (exists|j: int|
            0 <= j < shortcuts.len() && #[trigger] hits[j]),
        best_shortcut(shortcuts, hits) matches Some(i) ==> {
            &&& 0 <= i < shortcuts.len()
            &&& hits[i]
            &&& forall|j: int|
                0 <= j < shortcuts.len() && #[trigger] hits[j] ==> {
                    ||| shortcuts[j].priority() < shortcuts[i].priority()
                    ||| shortcuts[j].priority() == shortcuts[i].priority() && j <= i
                }
        },
    decreases shortcuts.len(),
{
    if shortcuts.len() > 0 {
        let head = shortcuts.drop_last();
        best_shortcut_is_best(head, hits);
        let last = shortcuts.len() - 1;
        assert forall|j: int| 0 <= j < head.len() implies head[j] == shortcuts[j] by {}
        if best_shortcut(shortcuts, hits) is Some {
            let i = best_shortcut(shortcuts, hits)->0;
            assert(hits[i]);
        }
        if exists|j: int| 0 <= j < shortcuts.len() && #[trigger] hits[j] {
            let j = choose|j: int| 0 <= j < shortcuts.len() && #[trigger] hits[j];
            if j < last {
                assert(0 <= j < head.len() && hits[j]);
            }
        }
    }
}

/// The layer of the best shortcut among those that were hit.
pub fn pick_layer(shortcuts: &Vec<LayerShortcut>, hits: &Vec<bool>) -> (r: Option<usize>)
    requires
        shortcuts@.len() == hits@.len(),
    ensures
        r == best_layer(shortcuts@, hits@),
{
    let mut best: Option<usize> = None;
    let mut i: usize = 0;
    while i < shortcuts.len()
        invariant
            i <= shortcuts@.len(),
            shortcuts@.len() == hits@.len(),
            best matches Some(b) ==> b < i,
            best_shortcut(shortcuts@.take(i as int), hits@) == (match best {
                Some(b) => Some(b as int),
                None => None,
            }),
        decreases shortcuts.len() - i,
    {
        proof {
            assert(shortcuts@.take(i + 1).drop_last() =~= shortcuts@.take(i as int));
        }
        if hits[i] {
            best = match best {
                None => Some(i),
                Some(b) => if shortcuts[i].match_priority() < shortcuts[b].match_priority() {
                    Some(b)
                } else {
                    Some(i)
                },
            };
        }
        i += 1;
    }
    proof {
        assert(shortcuts@.take(shortcuts@.len() as int) =~= shortcuts@);
    }
    match best {
        Some(b) => Some(shortcuts[b].layer),
        None => None,
    }
}

/// The layer that a key selects by a shortcut.
pub fn layer_for_shortcut(
    cfg: &Config,
    key: u32,
    fn_pressed: bool,
    modifiers: &KeyboardModifiers,
) -> (r: Option<usize>)
    ensures
        r == best_layer(
            cfg.layer_shortcuts@,
            shortcut_hits(cfg.layer_shortcuts@, key, fn_pressed, *modifiers),
        ),
{
    let mut hits: Vec<bool> = Vec::new();
    let ghost want = shortcut_hits(cfg.layer_shortcuts@, key, fn_pressed, *modifiers);
    let mut i: usize = 0;
    while i < cfg.layer_shortcuts.len()
        invariant
            i <= cfg.layer_shortcuts@.len(),
            want == shortcut_hits(cfg.layer_shortcuts@, key, fn_pressed, *modifiers),
            hits@ == want.take(i as int),
        decreases cfg.layer_shortcuts.len() - i,
    {
        hits.push(cfg.layer_shortcuts[i].matches(key, fn_pressed, modifiers));
        proof {
            assert(hits@ =~= want.take(i + 1));
        }
        i += 1;
    }
    proof {
        assert(hits@ =~= want);
    }
    pick_layer(&cfg.layer_shortcuts, &hits)
}

} // verus!
