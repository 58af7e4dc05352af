//! Buttons, the layers they stand on, and what is drawn of them.

use crate::config::ButtonConfig;
use crate::keys::{
    parse_key_name, Key, KEY_MACRO1, KEY_MACRO2, KEY_MACRO3, KEY_MACRO4, KEY_TIME, KEY_UNKNOWN,
};
use crate::text;
use crate::text::{same_str, to_lowercase};
use vstd::prelude::*;
use vstd::string::*;

verus! {

/// An icon that is still to be loaded.
pub struct IconRequest {
    pub name: String,
    pub path: String,
    pub mode: Option<String>,
}

/// What stands on a button. A loaded icon is known by its place among the
/// icons that were loaded.
pub enum ButtonImage {
    Text(String),
    Icon(IconRequest),
    Svg(usize),
    Bitmap(usize),
    Time(String, String),
    Blank,
}

/// One button of a layer.
pub struct Button {
    pub image: ButtonImage,
    pub changed: bool,
    pub active: bool,
    pub action: Key,
    pub command: Option<String>,
    pub switch_to_layer: Option<usize>,
    pub background: bool,
}

/// What stands on a button, by its text.
pub enum ImageView {
    Text(Seq<char>),
    Icon(Seq<char>, Seq<char>, Option<Seq<char>>),
    Svg(usize),
    Bitmap(usize),
    Time(Seq<char>, Seq<char>),
    Blank,
}

/// A button, with its strings as sequences of characters.
pub struct ButtonView {
    pub image: ImageView,
    pub changed: bool,
    pub active: bool,
    pub action: Key,
    pub command: Option<Seq<char>>,
    pub switch_to_layer: Option<usize>,
    pub background: bool,
}

impl View for ButtonImage {
    type V = ImageView;

    open spec fn view(&self) -> ImageView {
        match *self {
            ButtonImage::Text(t) => ImageView::Text(t@),
            ButtonImage::Icon(request) => ImageView::Icon(
                request.name@,
                request.path@,
                text::opt_text(request.mode),
            ),
            ButtonImage::Svg(i) => ImageView::Svg(i),
            ButtonImage::Bitmap(i) => ImageView::Bitmap(i),
            ButtonImage::Time(format, locale) => ImageView::Time(format@, locale@),
            ButtonImage::Blank => ImageView::Blank,
        }
    }
}

impl View for Button {
    type V = ButtonView;

    open spec fn view(&self) -> ButtonView {
        ButtonView {
            image: self.image@,
            changed: self.changed,
            active: self.active,
            action: self.action,
            command: text::opt_text(self.command),
            switch_to_layer: self.switch_to_layer,
            background: self.background,
        }
    }
}

/// An event for the virtual keyboard.
#[derive(Clone, Copy, PartialEq, Eq, Structural, Debug)]
pub struct InputEvent {
    pub kind: u16,
    pub code: u16,
    pub value: i32,
}

/// The kind of an event that ends a group of events.
pub const EV_SYN: u16 = 0;

/// The kind of an event of a key.
pub const EV_KEY: u16 = 1;

/// The code of an event that ends a group of events.
pub const SYN_REPORT: u16 = 0;

/// The events that set a key to `value`: the key itself and the end of the
/// group.
pub open spec fn toggle_events(code: u16, value: i32) -> Seq<InputEvent> {
    seq![
        InputEvent { kind: EV_KEY, code, value },
        InputEvent { kind: EV_SYN, code: SYN_REPORT, value: 0 },
    ]
}

/// Queues one event.
pub fn emit(out: &mut Vec<InputEvent>, kind: u16, code: u16, value: i32)
    ensures
        final(out)@ == old(out)@.push(InputEvent { kind, code, value }),
{
    out.push(InputEvent { kind, code, value });
}

/// Queues the events that set a key to `value`.
pub fn toggle_key(out: &mut Vec<InputEvent>, key: Key, value: i32)
    ensures
        final(out)@ == old(out)@ + toggle_events(key.code, value),
{
    emit(out, EV_KEY, key.code, value);
    emit(out, EV_SYN, SYN_REPORT, 0);
    proof {
        assert(out@ =~= old(out)@ + toggle_events(key.code, value));
    }
}

/// The events that tapping a key sends: it is pressed and released at once.
pub open spec fn tap_events(code: u16) -> Seq<InputEvent> {
    toggle_events(code, 1) + toggle_events(code, 0)
}

/// Keys with this code are sent to the virtual keyboard.
pub open spec fn sends_key(action: Key) -> bool {
    action.code != KEY_UNKNOWN && action.code != KEY_TIME
}

impl ButtonView {
    /// A button that nothing has happened to yet.
    pub open spec fn fresh(
        image: ImageView,
        action: Key,
        background: bool,
        command: Option<Seq<char>>,
        switch_to_layer: Option<usize>,
    ) -> ButtonView {
        ButtonView {
            image,
            changed: false,
            active: false,
            action,
            command,
            switch_to_layer,
            background,
        }
    }

    /// Touching the button has an effect.
    pub open spec fn interactive(self) -> bool {
        sends_key(self.action) || self.command is Some || self.switch_to_layer is Some
    }

    /// The button with its highlight switched on or off; it needs drawing
    /// again where that is a change.
    pub open spec fn highlighted(self, active: bool) -> ButtonView {
        if self.active == active {
            self
        } else {
            ButtonView { active, changed: true, ..self }
        }
    }

    /// The button marked for drawing again.
    pub open spec fn dirtied(self) -> ButtonView {
        ButtonView { changed: true, ..self }
    }

    /// The events that touching the button sends: its key is tapped, where the
    /// button is not highlighted yet.
    pub open spec fn touch_events(self) -> Seq<InputEvent> {
        if !self.active && sends_key(self.action) {
            tap_events(self.action.code)
        } else {
            Seq::empty()
        }
    }

    /// The events that switching the highlight on or off sends.
    pub open spec fn highlight_events(self, active: bool) -> Seq<InputEvent> {
        if self.active != active && sends_key(self.action) {
            toggle_events(
                self.action.code,
                if active {
                    1
                } else {
                    0
                },
            )
        } else {
            Seq::empty()
        }
    }
}

/// How loading an icon ended: at a place among the loaded icons, or not.
pub enum LoadedIcon {
    Svg(usize),
    Bitmap(usize),
    Failed,
}

/// The image of a button once loading its icon has ended: an icon that could
/// not be loaded is replaced by its name. Other images stay.
pub open spec fn image_after_load(image: ImageView, loaded: LoadedIcon) -> ImageView {
    match image {
        ImageView::Icon(name, path, mode) => match loaded {
            LoadedIcon::Svg(i) => ImageView::Svg(i),
            LoadedIcon::Bitmap(i) => ImageView::Bitmap(i),
            LoadedIcon::Failed => ImageView::Text(name),
        },
        other => other,
    }
}

impl Button {
    /// A button with a text label.
    pub fn new_text(
        text: String,
        action: Key,
        background: bool,
        command: Option<String>,
        switch_to_layer: Option<usize>,
    ) -> (r: Button)
        ensures
            r@ == ButtonView::fresh(
                ImageView::Text(text@),
                action,
                background,
                text::opt_text(command),
                switch_to_layer,
            ),
    {
        Button {
            action,
            command,
            switch_to_layer,
            active: false,
            changed: false,
            image: ButtonImage::Text(text),
            background,
        }
    }

    /// A button with an icon that is still to be loaded.
    pub fn new_icon(
        icon_name: String,
        action: Key,
        mode: Option<String>,
        path: String,
        background: bool,
        command: Option<String>,
        switch_to_layer: Option<usize>,
    ) -> (r: Button)
        ensures
            r@ == ButtonView::fresh(
                ImageView::Icon(icon_name@, path@, text::opt_text(mode)),
                action,
                background,
                text::opt_text(command),
                switch_to_layer,
            ),
    {
        Button {
            action,
            image: ButtonImage::Icon(IconRequest { name: icon_name, path, mode }),
            command,
            switch_to_layer,
            active: false,
            changed: false,
            background,
        }
    }

    /// A button that shows the time.
    pub fn new_time(action: Key, format: String, locale: String, background: bool) -> (r: Button)
        ensures
            r@ == ButtonView::fresh(
                ImageView::Time(format@, locale@),
                action,
                background,
                None,
                None,
            ),
    {
        Button {
            action,
            command: None,
            switch_to_layer: None,
            active: false,
            changed: false,
            image: ButtonImage::Time(format, locale),
            background,
        }
    }

    /// A button with nothing on it.
    pub fn new_blank(action: Key, background: bool) -> (r: Button)
        ensures
            r@ == ButtonView::fresh(ImageView::Blank, action, background, None, None),
    {
        Button {
            action,
            command: None,
            switch_to_layer: None,
            active: false,
            changed: false,
            image: ButtonImage::Blank,
            background,
        }
    }

    /// Records how loading the icon ended.
    pub fn icon_loaded(&mut self, loaded: LoadedIcon)
        ensures
            final(self)@ == (ButtonView {
                image: image_after_load(old(self)@.image, loaded),
                ..old(self)@
            }),
    {
        let name = match &self.image {
            ButtonImage::Icon(request) => request.name.clone(),
            _ => {
                return;
            },
        };
        self.image = match loaded {
            LoadedIcon::Svg(i) => ButtonImage::Svg(i),
            LoadedIcon::Bitmap(i) => ButtonImage::Bitmap(i),
            LoadedIcon::Failed => ButtonImage::Text(name),
        };
    }

    /// Switches the highlight on or off.
    pub fn highlight(&mut self, active: bool)
        ensures
            final(self)@ == old(self)@.highlighted(active),
    {
        if self.active != active {
            self.active = active;
            self.changed = true;
        }
    }

    /// Tells whether touching the button sends a key.
    pub fn emits_key(&self) -> (r: bool)
        ensures
            r == sends_key(self.action),
    {
        self.action.code != KEY_UNKNOWN && self.action.code != KEY_TIME
    }

    /// Tells whether touching the button has an effect.
    pub fn is_interactive(&self) -> (r: bool)
        ensures
            r == self@.interactive(),
    {
        self.emits_key() || self.command.is_some() || self.switch_to_layer.is_some()
    }

    /// Switches the highlight on or off and sends the key where that is a
    /// change.
    pub fn set_active(&mut self, out: &mut Vec<InputEvent>, active: bool)
        ensures
            final(self)@ == old(self)@.highlighted(active),
            final(out)@ == old(out)@ + old(self)@.highlight_events(active),
    {
        if self.active != active {
            self.highlight(active);
            if self.emits_key() {
                toggle_key(
                    out,
                    self.action,
                    if active {
                        1
                    } else {
                        0
                    },
                );
            }
        }
        proof {
            assert(old(out)@ + Seq::<InputEvent>::empty() =~= old(out)@);
        }
    }

    /// A finger touches the button: it is highlighted until it is let go, and
    /// its key is tapped, so that no key stays pressed under a finger.
    pub fn tap_key(&mut self, out: &mut Vec<InputEvent>)
        ensures
            final(self)@ == old(self)@.highlighted(true),
            final(out)@ == old(out)@ + old(self)@.touch_events(),
    {
        let press = !self.active && self.emits_key();
        self.set_active(out, true);
        if press {
            toggle_key(out, self.action, 0);
        }
        proof {
            let code = old(self)@.action.code;
            assert(old(out)@ + toggle_events(code, 1) + toggle_events(code, 0) =~= old(out)@
                + tap_events(code));
        }
    }
}

/// The lower case of an optional mode.
pub open spec fn lowered_mode(mode: Option<String>) -> Option<Seq<char>> {
    match mode {
        Some(m) => Some(text::lowercase(m@)),
        None => None,
    }
}

/// The mode is not given, or holds ASCII characters only.
pub open spec fn mode_is_ascii(mode: Option<String>) -> bool {
    mode matches Some(m) ==> vstd::utf8::is_ascii_chars(m@)
}

/// An optional mode with its ASCII letters in lower case.
pub open spec fn ascii_lowered_mode(mode: Option<String>) -> Option<Seq<char>> {
    match mode {
        Some(m) => Some(text::ascii_lowered(m@)),
        None => None,
    }
}

/// The text of an option, or `default` where it is not given.
pub open spec fn text_or(given: Option<String>, default: Seq<char>) -> Seq<char> {
    match given {
        Some(t) => t@,
        None => default,
    }
}

impl ButtonConfig {
    /// The key that the button sends: an unknown or missing name means none.
    pub open spec fn action_key(self) -> Key {
        match self.action {
            Some(name) => match crate::keys::key_named(name@) {
                Some(key) => key,
                None => Key { code: KEY_UNKNOWN },
            },
            None => Key { code: KEY_UNKNOWN },
        }
    }

    /// A button can be built, where `lowered` is the mode in lower case. An
    /// icon from the theme needs a mode, and so does an icon without a given
    /// background. A button with neither icon nor text must be blank or show
    /// the time.
    pub open spec fn buildable(self, lowered: Option<Seq<char>>) -> bool {
        if self.icon is Some {
            ||| self.mode is Some
            ||| {
                &&& self.background is Some
                &&& self.path is Some
                &&& self.path->0@ != "use_default"@
            }
        } else if self.text is Some {
            true
        } else {
            &&& self.mode is Some
            &&& lowered == Some("blank"@) || lowered == Some("time"@)
        }
    }

    /// The background of the button: as given, else by its kind. Icons have
    /// one unless they are in app mode, texts have one, the rest has none.
    pub open spec fn background_of(self, lowered: Option<Seq<char>>) -> bool {
        match self.background {
            Some(given) => given,
            None => if self.icon is Some {
                lowered != Some("app"@)
            } else {
                self.text is Some
            },
        }
    }

    /// The button that the configuration describes, where `lowered` is its
    /// mode in lower case and `action` its key.
    pub open spec fn button(self, lowered: Option<Seq<char>>, action: Key) -> ButtonView {
        let background = self.background_of(lowered);
        if self.icon is Some {
            ButtonView::fresh(
                ImageView::Icon(
                    self.icon->0@,
                    text_or(self.path, "use_default"@),
                    text::opt_text(self.mode),
                ),
                action,
                background,
                text::opt_text(self.command),
                self.switch_to_layer,
            )
        } else if self.text is Some {
            ButtonView::fresh(
                ImageView::Text(self.text->0@),
                action,
                background,
                text::opt_text(self.command),
                self.switch_to_layer,
            )
        } else if lowered == Some("blank"@) {
            ButtonView::fresh(ImageView::Blank, action, background, None, None)
        } else {
            ButtonView::fresh(
                ImageView::Time(text_or(self.format, "24hr"@), text_or(self.locale, "POSIX"@)),
                action,
                background,
                None,
                None,
            )
        }
    }

    /// The button that the configuration describes.
    pub open spec fn described(self) -> ButtonView {
        self.button(lowered_mode(self.mode), self.action_key())
    }

    /// The configuration describes a button.
    pub open spec fn describes_button(self) -> bool {
        self.buildable(lowered_mode(self.mode))
    }

    /// The key that the button sends.
    pub fn resolved_action(&self) -> (r: Key)
        ensures
            r == self.action_key(),
    {
        match &self.action {
            Some(name) => match parse_key_name(name.as_str()) {
                Some(key) => key,
                None => Key { code: KEY_UNKNOWN },
            },
            None => Key { code: KEY_UNKNOWN },
        }
    }

    /// Tells whether a button can be built, given the mode in lower case.
    pub fn is_buildable(&self, lowered: &Option<String>) -> (r: bool)
        ensures
            r == self.buildable(text::opt_text(*lowered)),
    {
        if self.icon.is_some() {
            if self.mode.is_some() {
                return true;
            }
            match &self.path {
                Some(p) => self.background.is_some() && !same_str(p.as_str(), "use_default"),
                None => false,
            }
        } else if self.text.is_some() {
            true
        } else {
            match lowered {
                Some(m) => self.mode.is_some() && (same_str(m.as_str(), "blank") || same_str(
                    m.as_str(),
                    "time",
                )),
                None => false,
            }
        }
    }

    /// Tells whether the configuration describes a button.
    pub fn is_valid(&self) -> (r: bool)
        ensures
            r == self.describes_button(),
            mode_is_ascii(self.mode) ==> r == self.buildable(ascii_lowered_mode(self.mode)),
    {
        let lowered = lower_mode(&self.mode);
        self.is_buildable(&lowered)
    }
}

fn lower_mode(mode: &Option<String>) -> (r: Option<String>)
    ensures
        text::opt_text(r) == lowered_mode(*mode),
        mode_is_ascii(*mode) ==> text::opt_text(r) == ascii_lowered_mode(*mode),
{
    match mode {
        Some(m) => Some(to_lowercase(m.as_str())),
        None => None,
    }
}

fn string_or(given: Option<String>, default: &str) -> (r: String)
    ensures
        r@ == text_or(given, default@),
{
    match given {
        Some(t) => t,
        None => default.to_owned(),
    }
}

fn is_mode(lowered: &Option<String>, name: &str) -> (r: bool)
    ensures
        r == (text::opt_text(*lowered) == Some(name@)),
{
    match lowered {
        Some(m) => same_str(m.as_str(), name),
        None => false,
    }
}

impl Button {
    /// Builds the button of a configuration, given the mode in lower case and
    /// the key.
    pub fn with_lowered_mode(cfg: ButtonConfig, lowered: &Option<String>, action: Key) -> (r: Button)
        requires
            cfg.buildable(text::opt_text(*lowered)),
        ensures
            r@ == cfg.button(text::opt_text(*lowered), action),
    {
        let background = match cfg.background {
            Some(given) => given,
            None => if cfg.icon.is_some() {
                !is_mode(lowered, "app")
            } else {
                cfg.text.is_some()
            },
        };
        if let Some(icon) = cfg.icon {
            let path = string_or(cfg.path, "use_default");
            Button::new_icon(
                icon,
                action,
                cfg.mode,
                path,
                background,
                cfg.command,
                cfg.switch_to_layer,
            )
        } else if let Some(label) = cfg.text {
            Button::new_text(label, action, background, cfg.command, cfg.switch_to_layer)
        } else if is_mode(lowered, "blank") {
            Button::new_blank(action, background)
        } else {
            let format = string_or(cfg.format, "24hr");
            let locale = string_or(cfg.locale, "POSIX");
            Button::new_time(action, format, locale, background)
        }
    }

    /// Builds the button that a configuration describes.
    pub fn with_config(cfg: ButtonConfig) -> (r: Button)
        requires
            cfg.describes_button(),
        ensures
            r@ == cfg.described(),
            mode_is_ascii(cfg.mode) ==> r@ == cfg.button(
                ascii_lowered_mode(cfg.mode),
                cfg.action_key(),
            ),
    {
        let lowered = lower_mode(&cfg.mode);
        let action = cfg.resolved_action();
        Button::with_lowered_mode(cfg, &lowered, action)
    }
}

/// A row of buttons.
pub struct FunctionLayer {
    pub buttons: Vec<Button>,
}

/// The views of a sequence of buttons.
pub open spec fn button_views(buttons: Seq<Button>) -> Seq<ButtonView> {
    Seq::new(buttons.len(), |i: int| buttons[i]@)
}

/// The views of a sequence of layers.
pub open spec fn layer_views(layers: Seq<FunctionLayer>) -> Seq<Seq<ButtonView>> {
    Seq::new(layers.len(), |i: int| layers[i]@)
}

impl View for FunctionLayer {
    type V = Seq<ButtonView>;

    open spec fn view(&self) -> Seq<ButtonView> {
        button_views(self.buttons@)
    }
}

/// The buttons that a list of configurations describes.
pub open spec fn described_layer(cfg: Seq<ButtonConfig>) -> Seq<ButtonView> {
    Seq::new(cfg.len(), |i: int| cfg[i].described())
}

/// The list describes a layer: it has buttons, and each can be built.
pub open spec fn describes_layer(cfg: Seq<ButtonConfig>) -> bool {
    cfg.len() > 0 && forall|i: int| 0 <= i < cfg.len() ==> (#[trigger] cfg[i]).describes_button()
}

/// How bright the box of a button is drawn.
#[derive(Clone, Copy, PartialEq, Eq, Structural, Debug)]
pub enum Shade {
    Active,
    Inactive,
    Black,
}

/// How one button is drawn.
#[derive(Clone, Copy, PartialEq, Eq, Structural, Debug)]
pub struct DrawItem {
    /// The place of the button on its layer.
    pub index: usize,
    /// How many button widths the drawing covers.
    pub span: u32,
    /// The box behind the button, where it has one.
    pub shade: Option<Shade>,
    /// The old drawing is erased first, and only this area is updated.
    pub partial: bool,
}

/// The button shows a box behind its image.
pub open spec fn has_box(b: ButtonView) -> bool {
    &&& b.interactive()
    &&& b.action.code != KEY_TIME
    &&& b.action.code != KEY_MACRO1
    &&& b.action.code != KEY_MACRO2
    &&& b.action.code != KEY_MACRO3
    &&& b.action.code != KEY_MACRO4
    &&& b.background || b.active
}

/// How bright the box of a button is.
pub open spec fn shade_of(b: ButtonView, outlines: bool) -> Shade {
    if b.active {
        Shade::Active
    } else if outlines {
        Shade::Inactive
    } else {
        Shade::Black
    }
}

/// How a button is drawn: a clock takes three button widths.
pub open spec fn draw_item(b: ButtonView, index: usize, outlines: bool, complete: bool) -> DrawItem {
    DrawItem {
        index,
        span: if b.action.code == KEY_TIME {
            3
        } else {
            1
        },
        shade: if has_box(b) {
            Some(shade_of(b, outlines))
        } else {
            None
        },
        partial: !complete,
    }
}

/// The buttons that are drawn, from left to right: all of them, or those that
/// changed.
pub open spec fn draw_items(buttons: Seq<ButtonView>, outlines: bool, complete: bool) -> Seq<
    DrawItem,
>
    decreases buttons.len(),
{
    if buttons.len() == 0 {
        Seq::empty()
    } else {
        let earlier = draw_items(buttons.drop_last(), outlines, complete);
        if complete || buttons.last().changed {
            earlier.push(
                draw_item(buttons.last(), (buttons.len() - 1) as usize, outlines, complete),
            )
        } else {
            earlier
        }
    }
}

/// The buttons after drawing: none of them needs drawing again.
pub open spec fn settled(buttons: Seq<ButtonView>) -> Seq<ButtonView> {
    Seq::new(buttons.len(), |i: int| ButtonView { changed: false, ..buttons[i] })
}

impl FunctionLayer {
    /// Builds the layer that a list of configurations describes.
    pub fn with_config(cfg: Vec<ButtonConfig>) -> (r: FunctionLayer)
        requires
            describes_layer(cfg@),
        ensures
            r@ == described_layer(cfg@),
    {
        let ghost all = cfg@;
        let mut buttons: Vec<Button> = Vec::new();
        for c in it: cfg
            invariant
                it.seq() == all,
                describes_layer(all),
                buttons@.len() == it.index(),
                forall|i: int| 0 <= i < buttons@.len() ==> (#[trigger] buttons@[i])@ == all[i].described(),
        {
            buttons.push(Button::with_config(c));
        }
        let layer = FunctionLayer { buttons };
        proof {
            assert(layer@ =~= described_layer(all));
        }
        layer
    }

    /// Tells whether a list of configurations describes a layer.
    pub fn is_valid(cfg: &Vec<ButtonConfig>) -> (r: bool)
        ensures
            r == describes_layer(cfg@),
    {
        let mut i: usize = 0;
        while i < cfg.len()
            invariant
                i <= cfg@.len(),
                forall|j: int| 0 <= j < i ==> (#[trigger] cfg@[j]).describes_button(),
            decreases cfg.len() - i,
        {
            if !cfg[i].is_valid() {
                return false;
            }
            i += 1;
        }
        cfg.len() > 0
    }

    /// Draws the layer: tells what is drawn, and how, and records that it was.
    pub fn draw(&mut self, show_button_outlines: bool, complete_redraw: bool) -> (r: Vec<DrawItem>)
        ensures
            r@ == draw_items(old(self)@, show_button_outlines, complete_redraw),
            final(self)@ == settled(old(self)@),
    {
        let ghost before = self@;
        let n: usize = self.buttons.len();
        let mut items: Vec<DrawItem> = Vec::new();
        let mut i: usize = 0;
        while i < n
            invariant
                i <= n,
                n == before.len(),
                n == self.buttons@.len(),
                items@ == draw_items(before.take(i as int), show_button_outlines, complete_redraw),
                forall|j: int| 0 <= j < i ==> (#[trigger] self.buttons@[j])@ == (ButtonView {
                    changed: false,
                    ..before[j]
                }),
                forall|j: int| i <= j < n ==> (#[trigger] self.buttons@[j])@ == before[j],
            decreases n - i,
        {
            proof {
                assert(before.take(i + 1).drop_last() =~= before.take(i as int));
                assert(before.take(i + 1).last() == before[i as int]);
                assert(self.buttons@[i as int]@ == before[i as int]);
            }
            let b = &self.buttons[i];
            if complete_redraw || b.changed {
                items.push(b.drawn_at(i, show_button_outlines, complete_redraw));
                self.buttons[i].changed = false;
            }
            i += 1;
        }
        proof {
            assert(before.take(n as int) =~= before);
            assert(self@ =~= settled(before));
        }
        items
    }
}

impl Button {
    fn drawn_at(&self, index: usize, outlines: bool, complete: bool) -> (r: DrawItem)
        ensures
            r == draw_item(self@, index, outlines, complete),
    {
        let code: u16 = self.action.code;
        let boxed = self.is_interactive() && code != KEY_TIME && code != KEY_MACRO1 && code
            != KEY_MACRO2 && code != KEY_MACRO3 && code != KEY_MACRO4 && (self.background
            || self.active);
        let shade = if !boxed {
            None
        } else if self.active {
            Some(Shade::Active)
        } else if outlines {
            Some(Shade::Inactive)
        } else {
            Some(Shade::Black)
        };
        let span: u32 = if code == KEY_TIME {
            3
        } else {
            1
        };
        DrawItem { index, span, shade, partial: !complete }
    }
}

/// Drawing leaves nothing to draw: an update right after it is empty.
pub proof fn drawing_settles(buttons: Seq<ButtonView>, outlines: bool)
    ensures
        draw_items(settled(buttons), outlines, false) == Seq::<DrawItem>::empty(),
    decreases buttons.len(),
{
    if buttons.len() > 0 {
        drawing_settles(buttons.drop_last(), outlines);
        assert(settled(buttons).drop_last() =~= settled(buttons.drop_last()));
    }
}

/// A complete drawing covers every button, in order.
pub proof fn complete_drawing_covers(buttons: Seq<ButtonView>, outlines: bool)
    requires
        buttons.len() <= usize::MAX,
    ensures
        draw_items(buttons, outlines, true).len() == buttons.len(),
        forall|i: int|
            0 <= i < buttons.len() ==> #[trigger] draw_items(buttons, outlines, true)[i]
                == draw_item(buttons[i], i as usize, outlines, true),
    decreases buttons.len(),
{
    if buttons.len() > 0 {
        complete_drawing_covers(buttons.drop_last(), outlines);
        assert forall|i: int| 0 <= i < buttons.len() implies #[trigger] draw_items(
            buttons,
            outlines,
            true,
        )[i] == draw_item(buttons[i], i as usize, outlines, true) by {
            if i < buttons.len() - 1 {
                assert(draw_items(buttons, outlines, true)[i] == draw_items(
                    buttons.drop_last(),
                    outlines,
                    true,
                )[i]);
            }
        }
    }
}

/// The keys that a row of buttons can send, in order.
pub open spec fn row_keys(buttons: Seq<ButtonView>) -> Seq<Key>
    decreases buttons.len(),
{
    if buttons.len() == 0 {
        Seq::empty()
    } else if sends_key(buttons.last().action) {
        row_keys(buttons.drop_last()).push(buttons.last().action)
    } else {
        row_keys(buttons.drop_last())
    }
}

/// The keys that the layers can send, in order.
pub open spec fn layer_keys(layers: Seq<Seq<ButtonView>>) -> Seq<Key>
    decreases layers.len(),
{
    if layers.len() == 0 {
        Seq::empty()
    } else {
        layer_keys(layers.drop_last()) + row_keys(layers.last())
    }
}

/// Lists the keys that the layers can send.
pub fn emitted_keys(layers: &Vec<FunctionLayer>) -> (r: Vec<Key>)
    ensures
        r@ == layer_keys(layer_views(layers@)),
{
    let ghost all = layer_views(layers@);
    let mut out: Vec<Key> = Vec::new();
    let mut i: usize = 0;
    proof {
        assert(out@ =~= layer_keys(all.take(0)));
    }
    while i < layers.len()
        invariant
            i <= layers@.len(),
            all == layer_views(layers@),
            out@ == layer_keys(all.take(i as int)),
        decreases layers.len() - i,
    {
        let ghost row = all[i as int];
        let ghost before = out@;
        let mut j: usize = 0;
        proof {
            assert(row == button_views(layers@[i as int].buttons@));
            assert(before + row_keys(row.take(0)) =~= before);
        }
        while j < layers[i].buttons.len()
            invariant
                i < layers@.len(),
                j <= layers@[i as int].buttons@.len(),
                row == button_views(layers@[i as int].buttons@),
                out@ == before + row_keys(row.take(j as int)),
            decreases layers@[i as int].buttons@.len() - j,
        {
            proof {
                assert(row.take(j + 1).drop_last() =~= row.take(j as int));
                assert(row.take(j + 1).last() == layers@[i as int].buttons@[j as int]@);
            }
            if layers[i].buttons[j].emits_key() {
                out.push(layers[i].buttons[j].action);
            }
            proof {
                assert(out@ =~= before + row_keys(row.take(j + 1)));
            }
            j += 1;
        }
        proof {
            assert(row.take(j as int) =~= row);
            assert(all.take(i + 1).drop_last() =~= all.take(i as int));
            assert(all.take(i + 1).last() == row);
        }
        i += 1;
    }
    proof {
        assert(all.take(i as int) =~= all);
    }
    out
}

/// The key of a button of a row is among those that the row can send, where
/// the button sends one.
proof fn lemma_row_keys(buttons: Seq<ButtonView>, b: int)
    requires
        0 <= b < buttons.len(),
        sends_key(buttons[b].action),
    ensures
        row_keys(buttons).contains(buttons[b].action),
    decreases buttons.len(),
{
    let rest = buttons.drop_last();
    if b < rest.len() {
        lemma_row_keys(rest, b);
        let k = choose|k: int|
            0 <= k < row_keys(rest).len() && row_keys(rest)[k] == buttons[b].action;
        assert(row_keys(buttons)[k] == buttons[b].action);
    } else {
        assert(row_keys(buttons)[row_keys(rest).len() as int] == buttons[b].action);
    }
}

/// Every key that a button can send is listed, so that it can be registered.
pub proof fn emitted_keys_are_listed(layers: Seq<Seq<ButtonView>>, layer: int, b: int)
    requires
        0 <= layer < layers.len(),
        0 <= b < layers[layer].len(),
        sends_key(layers[layer][b].action),
    ensures
        layer_keys(layers).contains(layers[layer][b].action),
    decreases layers.len(),
{
    let rest = layers.drop_last();
    let key = layers[layer][b].action;
    if layer < rest.len() {
        emitted_keys_are_listed(rest, layer, b);
        let k = choose|k: int| 0 <= k < layer_keys(rest).len() && layer_keys(rest)[k] == key;
        assert(layer_keys(layers)[k] == key);
    } else {
        lemma_row_keys(layers[layer], b);
        let k = choose|k: int|
            0 <= k < row_keys(layers[layer]).len() && row_keys(layers[layer])[k] == key;
        assert(layer_keys(layers)[layer_keys(rest).len() + k] == key);
    }
}

} // verus!
