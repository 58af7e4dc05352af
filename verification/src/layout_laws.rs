//! What the files say is what stands on the bar: options, layers, buttons, and
//! how they are drawn.

use crate::button;
use crate::button::{ButtonView, DrawItem, ImageView, LoadedIcon, Shade};
use crate::config;
use crate::config::{ButtonConfig, Config, ConfigProxy, FnMode};
use crate::keys;
use crate::keys::Key;
use crate::text;
use crate::touch_laws;
use vstd::prelude::*;

verus! {

/// The option of the user counts where it is given, else that of the base file.
pub open spec fn overridden<T>(base: Option<T>, user: Option<T>, r: Option<T>) -> bool {
    &&& user is Some ==> r == user
    &&& user is None ==> r == base
}

/// Every option that the user file gives counts, and every option that it does
/// not give is that of the base file. The themes and the presets of the editor
/// stay those of the base file.
pub proof fn user_options_count(base: ConfigProxy, user: ConfigProxy)
    ensures
        ({
            let r = config::merged(base, user);
            &&& overridden(base.media_layer_default, user.media_layer_default, r.media_layer_default)
            &&& overridden(base.special_extended_mode, user.special_extended_mode, r.special_extended_mode)
            &&& overridden(base.show_button_outlines, user.show_button_outlines, r.show_button_outlines)
            &&& overridden(base.enable_pixel_shift, user.enable_pixel_shift, r.enable_pixel_shift)
            &&& overridden(base.font_renderer, user.font_renderer, r.font_renderer)
            &&& overridden(base.font_style, user.font_style, r.font_style)
            &&& overridden(base.bold, user.bold, r.bold)
            &&& overridden(base.italic, user.italic, r.italic)
            &&& overridden(base.font_template, user.font_template, r.font_template)
            &&& overridden(base.emoji_font_template, user.emoji_font_template, r.emoji_font_template)
            &&& overridden(base.adaptive_brightness, user.adaptive_brightness, r.adaptive_brightness)
            &&& overridden(base.active_brightness, user.active_brightness, r.active_brightness)
            &&& overridden(base.dim_timeout_ms, user.dim_timeout_ms, r.dim_timeout_ms)
            &&& overridden(base.off_timeout_ms, user.off_timeout_ms, r.off_timeout_ms)
            &&& overridden(base.dimmed_brightness, user.dimmed_brightness, r.dimmed_brightness)
            &&& overridden(base.fn_mode, user.fn_mode, r.fn_mode)
            &&& overridden(base.fn_toggle_press_ms, user.fn_toggle_press_ms, r.fn_toggle_press_ms)
            &&& overridden(base.allow_root_commands, user.allow_root_commands, r.allow_root_commands)
            &&& overridden(base.primary_layer_keys, user.primary_layer_keys, r.primary_layer_keys)
            &&& overridden(base.media_layer_keys, user.media_layer_keys, r.media_layer_keys)
            &&& overridden(base.app_layer_keys1, user.app_layer_keys1, r.app_layer_keys1)
            &&& overridden(base.app_layer_keys2, user.app_layer_keys2, r.app_layer_keys2)
            &&& overridden(base.app_layer_keys3, user.app_layer_keys3, r.app_layer_keys3)
            &&& overridden(base.custom_bars, user.custom_bars, r.custom_bars)
            &&& overridden(base.layer_shortcuts, user.layer_shortcuts, r.layer_shortcuts)
            &&& overridden(base.redraw_shortcut, user.redraw_shortcut, r.redraw_shortcut)
            &&& r.media_icon_theme == base.media_icon_theme
            &&& r.app_icon_theme == base.app_icon_theme
            &&& r.button_library == base.button_library
        }),
{
}

/// Without a user file the options are those of the base file; with one they
/// are those of both.
pub proof fn the_user_file_may_be_missing(base: ConfigProxy, user: ConfigProxy)
    ensures
        config::effective(base, None) == base,
        config::effective(base, Some(user)) == config::merged(base, user),
{
}

/// The icon themes of the user count where they are given, each for itself.
pub proof fn user_themes_count(base: ConfigProxy, user: ConfigProxy)
    ensures
        config::effective_theme(base, None) == (base.media_icon_theme, base.app_icon_theme),
        overridden(
            base.media_icon_theme,
            user.media_icon_theme,
            config::effective_theme(base, Some(user)).0,
        ),
        overridden(
            base.app_icon_theme,
            user.app_icon_theme,
            config::effective_theme(base, Some(user)).1,
        ),
{
}

/// The value is the one that is given, or this one where none is.
pub open spec fn defaulted<T>(given: Option<T>, otherwise: T, value: T) -> bool {
    given == Some(value) || (given is None && value == otherwise)
}

/// The daemon runs with the options of the files. Those that need not be given
/// have defaults: half a minute until the bar is dimmed to one and a minute
/// until it goes dark, 120 milliseconds for a tap of Fn, no commands.
pub proof fn options_are_those_of_the_files(cfg: Config, p: ConfigProxy)
    requires
        p.complete(),
        config::holds_options(cfg, p),
    ensures
        p.media_layer_default == Some(cfg.media_layer_default),
        p.show_button_outlines == Some(cfg.show_button_outlines),
        p.enable_pixel_shift == Some(cfg.enable_pixel_shift),
        p.adaptive_brightness == Some(cfg.adaptive_brightness),
        p.font_renderer == Some(cfg.font_renderer),
        p.font_style == Some(cfg.font_style_cairo),
        p.bold == Some(cfg.bold_cairo),
        p.italic == Some(cfg.italic_cairo),
        p.font_template == Some(cfg.font_template),
        p.emoji_font_template == cfg.emoji_font_template,
        p.active_brightness == Some(cfg.active_brightness),
        defaulted(p.dim_timeout_ms, 30_000, cfg.dim_timeout_ms),
        defaulted(p.off_timeout_ms, 60_000, cfg.off_timeout_ms),
        defaulted(p.dimmed_brightness, 1, cfg.dimmed_brightness),
        defaulted(p.fn_toggle_press_ms, 120, cfg.fn_toggle_press_ms),
        defaulted(p.allow_root_commands, false, cfg.allow_root_commands),
        defaulted(p.redraw_shortcut, config::redraw_default(), cfg.redraw_shortcut),
        p.layer_shortcuts matches Some(given) ==> cfg.layer_shortcuts@ == given@,
        p.layer_shortcuts is None ==> cfg.layer_shortcuts@ == config::digit_shortcuts(),
        cfg.fn_mode == FnMode::configured(p.fn_mode),
{
}

/// Without a mode for Fn, it is to be held. A mode in lower case is a toggle or
/// smart by exactly that name, and any other name means that Fn is held.
pub proof fn fn_modes_have_names(lowered: Seq<char>, given: String)
    ensures
        FnMode::configured(None) == FnMode::Hold,
        FnMode::configured(Some(given)) == FnMode::named(text::lowercase(given@)),
        FnMode::named(lowered) == FnMode::Toggle <==> lowered == "toggle"@,
        FnMode::named(lowered) == FnMode::Smart <==> lowered == "smart"@,
        FnMode::named(lowered) == FnMode::Hold <==> lowered != "toggle"@ && lowered != "smart"@,
{
    reveal_strlit("toggle");
    reveal_strlit("smart");
    assert("toggle"@.len() != "smart"@.len());
}

/// The list is given, is not empty, and describes buttons only.
pub open spec fn good_list(list: Option<Vec<ButtonConfig>>) -> bool {
    &&& list is Some
    &&& list->0@.len() > 0
    &&& forall|i: int| 0 <= i < list->0@.len() ==> (#[trigger] list->0@[i]).describes_button()
}

/// What the files must give: the options without a default, the five named
/// lists of buttons, and further bars only of buttons.
pub proof fn what_suffices(p: ConfigProxy)
    ensures
        p.complete() == {
            &&& p.media_layer_default is Some && p.special_extended_mode is Some
            &&& p.show_button_outlines is Some && p.enable_pixel_shift is Some
            &&& p.adaptive_brightness is Some && p.active_brightness is Some
            &&& p.font_renderer is Some && p.font_style is Some && p.font_template is Some
            &&& p.bold is Some && p.italic is Some
            &&& good_list(p.media_layer_keys) && good_list(p.primary_layer_keys)
            &&& good_list(p.app_layer_keys1) && good_list(p.app_layer_keys2)
            &&& good_list(p.app_layer_keys3)
            &&& p.custom_bars matches Some(bars) ==> forall|i: int|
                0 <= i < bars@.len() ==> good_list(Some(#[trigger] bars@[i]))
        },
{
    if let Some(bars) = p.custom_bars {
        assert forall|i: int| 0 <= i < bars@.len() implies good_list(Some(#[trigger] bars@[i]))
            == button::describes_layer(bars@[i]@) by {}
        if forall|i: int| 0 <= i < bars@.len() ==> good_list(Some(#[trigger] bars@[i])) {
            assert forall|i: int| 0 <= i < bars@.len() implies button::describes_layer(
                (#[trigger] bars@[i])@,
            ) by {
                assert(good_list(Some(bars@[i])));
            }
        }
    }
}

/// The Escape key: a label, a background, and nothing but its key.
pub open spec fn is_escape(b: ButtonView) -> bool {
    &&& b.image == ImageView::Text("esc"@)
    &&& b.action == Key { code: 1 }
    &&& b.background
    &&& b.command is None
    &&& b.switch_to_layer is None
    &&& !b.active
    &&& !b.changed
}

/// The row holds the buttons of the list, in order, behind the Escape key where
/// the bar is wide enough for one.
pub open spec fn row_of(row: Seq<ButtonView>, list: Seq<ButtonConfig>, width: u16) -> bool {
    let lead: int = if width >= 2170 {
        1
    } else {
        0
    };
    &&& row.len() == list.len() + lead
    &&& width >= 2170 ==> is_escape(row[0])
    &&& forall|i: int|
        0 <= i < list.len() ==> #[trigger] row[i + lead] == list[i].described()
}

proof fn lemma_row(plain: Seq<Seq<ButtonView>>, width: u16, l: int, list: Seq<ButtonConfig>)
    requires
        0 <= l < plain.len(),
        plain[l] == button::described_layer(list),
    ensures
        row_of(config::with_escape(plain, width)[l], list, width),
{
    let row = config::with_escape(plain, width)[l];
    let lead: int = if width >= 2170 {
        1
    } else {
        0
    };
    assert forall|i: int| 0 <= i < list.len() implies #[trigger] row[i + lead]
        == list[i].described() by {
        if width >= 2170 {
            assert(row[i + 1] == plain[l][i]);
        }
    }
}

/// Which list stands on which layer. The first two layers are the media keys
/// and the function keys, in the order that `MediaLayerDefault` says; in
/// extended mode the first app list stands in for the media keys, and the other
/// two follow. Further bars come behind these, in order.
pub proof fn lists_stand_on_layers(p: ConfigProxy, width: u16)
    requires
        p.complete(),
    ensures
        ({
            let layers = p.layers(width);
            let extended = p.special_extended_mode->0;
            let media = if extended {
                p.app_layer_keys1->0@
            } else {
                p.media_layer_keys->0@
            };
            let fkeys = p.primary_layer_keys->0@;
            let named: int = if extended {
                4
            } else {
                2
            };
            &&& p.media_layer_default->0 ==> row_of(layers[0], media, width) && row_of(
                layers[1],
                fkeys,
                width,
            )
            &&& !p.media_layer_default->0 ==> row_of(layers[0], fkeys, width) && row_of(
                layers[1],
                media,
                width,
            )
            &&& extended ==> row_of(layers[2], p.app_layer_keys2->0@, width) && row_of(
                layers[3],
                p.app_layer_keys3->0@,
                width,
            )
            &&& p.custom_bars is None ==> layers.len() == named
            &&& p.custom_bars matches Some(bars) ==> layers.len() == named + bars@.len()
                && forall|i: int|
                0 <= i < bars@.len() ==> row_of(
                    layers[named + i],
                    (#[trigger] bars@[i])@,
                    width,
                )
        }),
{
    let plain = p.named_layers() + p.custom_layers();
    let extended = p.special_extended_mode->0;
    let media = if extended {
        p.app_layer_keys1->0@
    } else {
        p.media_layer_keys->0@
    };
    let fkeys = p.primary_layer_keys->0@;
    let named: int = if extended {
        4
    } else {
        2
    };
    assert(p.named_layers().len() == named);
    assert(plain[0] == p.named_layers()[0] && plain[1] == p.named_layers()[1]);
    if p.media_layer_default->0 {
        lemma_row(plain, width, 0, media);
        lemma_row(plain, width, 1, fkeys);
    } else {
        lemma_row(plain, width, 0, fkeys);
        lemma_row(plain, width, 1, media);
    }
    if extended {
        assert(plain[2] == p.named_layers()[2] && plain[3] == p.named_layers()[3]);
        lemma_row(plain, width, 2, p.app_layer_keys2->0@);
        lemma_row(plain, width, 3, p.app_layer_keys3->0@);
    }
    if let Some(bars) = p.custom_bars {
        assert forall|i: int| 0 <= i < bars@.len() implies row_of(
            p.layers(width)[named + i],
            (#[trigger] bars@[i])@,
            width,
        ) by {
            assert(plain[named + i] == p.custom_layers()[i]);
            lemma_row(plain, width, named + i, bars@[i]@);
        }
    }
}

/// A list describes a layer where it is not empty and each entry describes a
/// button; the layer then has one button for each entry, in order.
pub proof fn layers_follow_their_lists(list: Seq<ButtonConfig>)
    ensures
        button::describes_layer(list) == (list.len() > 0 && forall|i: int|
            0 <= i < list.len() ==> (#[trigger] list[i]).describes_button()),
        button::described_layer(list).len() == list.len(),
        forall|i: int|
            0 <= i < list.len() ==> #[trigger] button::described_layer(list)[i]
                == list[i].described(),
{
}

/// A button with an icon or a text keeps its command and the layer that it
/// switches to, and so reacts to a finger where either is given. Clocks and
/// blank buttons have neither.
pub proof fn buttons_keep_what_they_do(c: ButtonConfig, lowered: Option<Seq<char>>, action: Key)
    ensures
        ({
            let b = c.button(lowered, action);
            &&& b.action == action
            &&& !b.active && !b.changed
            &&& c.icon is Some || c.text is Some ==> {
                &&& b.command == text::opt_text(c.command)
                &&& b.switch_to_layer == c.switch_to_layer
                &&& c.command is Some || c.switch_to_layer is Some ==> b.interactive()
            }
            &&& c.icon is None && c.text is None ==> b.command is None && b.switch_to_layer is None
        }),
        c.described().action == c.action_key(),
        c.described() == c.button(button::lowered_mode(c.mode), c.action_key()),
        c.mode is None ==> button::lowered_mode(c.mode) is None,
        c.mode matches Some(m) ==> button::lowered_mode(c.mode) == Some(text::lowercase(m@)),
{
}

/// What stands on a button: the icon where one is given, with the path that is
/// given or the mark of the default, else the text. Without either the mode
/// tells: a blank button, or a clock in the format and language that are given
/// or else by 24 hours in that of POSIX.
pub proof fn buttons_show_what_is_given(c: ButtonConfig, lowered: Option<Seq<char>>, action: Key)
    requires
        c.buildable(lowered),
    ensures
        ({
            let b = c.button(lowered, action);
            match c.icon {
                Some(icon) => {
                    &&& b.image matches ImageView::Icon(name, path, mode) && {
                        &&& name == icon@
                        &&& mode == text::opt_text(c.mode)
                        &&& c.path matches Some(p) ==> path == p@
                        &&& c.path is None ==> path == "use_default"@
                    }
                },
                None => match c.text {
                    Some(label) => b.image == ImageView::Text(label@),
                    None => {
                        &&& lowered == Some("blank"@) ==> b.image == ImageView::Blank
                        &&& lowered == Some("time"@) ==> {
                            &&& b.image matches ImageView::Time(format, locale) && {
                                &&& c.format matches Some(f) ==> format == f@
                                &&& c.format is None ==> format == "24hr"@
                                &&& c.locale matches Some(l) ==> locale == l@
                                &&& c.locale is None ==> locale == "POSIX"@
                            }
                        }
                    },
                },
            }
        }),
{
    reveal_strlit("blank");
    reveal_strlit("time");
    assert("blank"@.len() != "time"@.len());
}

/// A background is as given. Where none is given, texts have one, icons have one
/// unless they are those of apps, and clocks and blank buttons have none.
pub proof fn buttons_have_their_background(c: ButtonConfig, lowered: Option<Seq<char>>, action: Key)
    ensures
        ({
            let b = c.button(lowered, action);
            &&& c.background matches Some(given) ==> b.background == given
            &&& c.background is None && c.icon is Some ==> b.background == (lowered != Some(
                "app"@,
            ))
            &&& c.background is None && c.icon is None ==> b.background == (c.text is Some)
        }),
{
}

/// The key of a button is the one that its action names; without an action, or
/// with one that no key has, it is none.
pub proof fn buttons_send_the_key_they_name(c: ButtonConfig)
    ensures
        c.action is None ==> c.action_key().code == 240,
        c.action matches Some(name) ==> match keys::key_named(name@) {
            Some(key) => c.action_key() == key,
            None => c.action_key().code == 240,
        },
{
}

/// What describes a button: a text; or an icon with a mode, or with a
/// background and a path of its own; or the mode of a blank button or a clock.
pub proof fn what_describes_a_button(c: ButtonConfig, lowered: Option<Seq<char>>)
    ensures
        c.icon is Some && c.mode is Some ==> c.buildable(lowered),
        c.icon is Some && c.mode is None ==> c.buildable(lowered) == (c.background is Some
            && c.path is Some && c.path->0@ != "use_default"@),
        c.icon is None && c.text is Some ==> c.buildable(lowered),
        c.icon is None && c.text is None ==> c.buildable(lowered) == (c.mode is Some && (lowered
            == Some("blank"@) || lowered == Some("time"@))),
        c.describes_button() == c.buildable(button::lowered_mode(c.mode)),
{
}

/// Touching does something where the button has a key to send, a command or a
/// layer to switch to; the keys of clocks and of buttons without an action are
/// not sent.
pub proof fn what_reacts_to_a_finger(b: ButtonView)
    ensures
        b.interactive() == touch_laws::reacts(b),
        button::sends_key(b.action) == touch_laws::has_key(b),
{
}

/// Setting a key sends its code and value as a key event, then a report.
pub proof fn key_events_are_followed_by_a_report(code: u16, value: i32)
    ensures
        button::toggle_events(code, value).len() == 2,
        button::toggle_events(code, value)[0].kind == 1,
        button::toggle_events(code, value)[0].code == code,
        button::toggle_events(code, value)[0].value == value,
        button::toggle_events(code, value)[1] == touch_laws::report(),
        button::tap_events(code) == touch_laws::tap_of(code),
{
    assert(button::tap_events(code) =~= touch_laws::tap_of(code));
}

/// Lighting a button or putting it out keeps all else of it, and marks it for
/// drawing where that is a change; then the key of the button, where it has one,
/// goes down with the light and up with it.
pub proof fn lighting_a_button(b: ButtonView, active: bool)
    ensures
        b.highlighted(active) == (ButtonView {
            active,
            changed: b.changed || b.active != active,
            ..b
        }),
        b.dirtied() == (ButtonView { changed: true, ..b }),
        b.active == active || !touch_laws::has_key(b) ==> b.highlight_events(active).len() == 0,
        b.active != active && touch_laws::has_key(b) ==> b.highlight_events(active)
            == button::toggle_events(
            b.action.code,
            if active {
                1
            } else {
                0
            },
        ),
{
}

/// An icon that was loaded stands on its button, one that was not is replaced
/// by its name, and nothing else is.
pub proof fn icons_fall_back_to_their_name(
    name: Seq<char>,
    path: Seq<char>,
    mode: Option<Seq<char>>,
    i: usize,
    other: ImageView,
    loaded: LoadedIcon,
)
    ensures
        ({
            let icon = ImageView::Icon(name, path, mode);
            &&& button::image_after_load(icon, LoadedIcon::Svg(i)) == ImageView::Svg(i)
            &&& button::image_after_load(icon, LoadedIcon::Bitmap(i)) == ImageView::Bitmap(i)
            &&& button::image_after_load(icon, LoadedIcon::Failed) == ImageView::Text(name)
            &&& other !is Icon ==> button::image_after_load(other, loaded) == other
        }),
{
}

/// The button has a box behind it: it is lit or has a background, and is
/// neither a clock, nor one of the four macro keys, nor without any effect.
pub open spec fn boxed(b: ButtonView) -> bool {
    &&& b.background || b.active
    &&& b.action.code != 359
    &&& !(656 <= b.action.code <= 659)
    &&& b.action.code != 240 || b.command is Some || b.switch_to_layer is Some
}

/// How a button is drawn: a clock takes three widths and others one. A box is
/// bright where the button is lit, else faint where outlines are to be shown,
/// else black. A drawing that is not complete covers the button alone.
pub proof fn how_a_button_is_drawn(b: ButtonView, index: usize, outlines: bool, complete: bool)
    ensures
        ({
            let d = button::draw_item(b, index, outlines, complete);
            &&& d.index == index
            &&& d.partial == !complete
            &&& d.span == (if b.action.code == 359 {
                3u32
            } else {
                1u32
            })
            &&& d.shade is Some <==> boxed(b)
            &&& boxed(b) && b.active ==> d.shade == Some(Shade::Active)
            &&& boxed(b) && !b.active && outlines ==> d.shade == Some(Shade::Inactive)
            &&& boxed(b) && !b.active && !outlines ==> d.shade == Some(Shade::Black)
        }),
{
}

/// The button with this index is drawn at this place of the list.
pub open spec fn drawn_as(
    buttons: Seq<ButtonView>,
    outlines: bool,
    complete: bool,
    items: Seq<DrawItem>,
    k: int,
    i: int,
) -> bool {
    &&& 0 <= k < items.len()
    &&& 0 <= i < buttons.len()
    &&& items[k] == button::draw_item(buttons[i], i as usize, outlines, complete)
}

/// Which buttons are drawn: all of them, or those that are marked; each once,
/// from left to right.
pub proof fn marked_buttons_are_drawn(buttons: Seq<ButtonView>, outlines: bool, complete: bool)
    requires
        buttons.len() <= usize::MAX,
    ensures
        ({
            let items = button::draw_items(buttons, outlines, complete);
            &&& forall|i: int|
                0 <= i < buttons.len() && (complete || (#[trigger] buttons[i]).changed)
                    ==> exists|k: int| drawn_as(buttons, outlines, complete, items, k, i)
            &&& forall|k: int|
                0 <= k < items.len() ==> {
                    let i = (#[trigger] items[k]).index as int;
                    &&& drawn_as(buttons, outlines, complete, items, k, i)
                    &&& complete || buttons[i].changed
                }
            &&& forall|k: int, m: int|
                0 <= k < m < items.len() ==> (#[trigger] items[k]).index < (
                #[trigger] items[m]).index
        }),
    decreases buttons.len(),
{
    if buttons.len() > 0 {
        let head = buttons.drop_last();
        let last = buttons.len() - 1;
        marked_buttons_are_drawn(head, outlines, complete);
        let earlier = button::draw_items(head, outlines, complete);
        let items = button::draw_items(buttons, outlines, complete);
        assert forall|k: int| 0 <= k < earlier.len() implies items[k] == earlier[k] by {}
        assert forall|i: int| 0 <= i < buttons.len() && (complete || (
        #[trigger] buttons[i]).changed) implies exists|k: int|
            drawn_as(buttons, outlines, complete, items, k, i) by {
            if i < last {
                assert(head[i] == buttons[i]);
                let k = choose|k: int| drawn_as(head, outlines, complete, earlier, k, i);
                assert(drawn_as(buttons, outlines, complete, items, k, i));
            } else {
                assert(drawn_as(buttons, outlines, complete, items, earlier.len() as int, i));
            }
        }
        assert forall|k: int| 0 <= k < items.len() implies {
            let i = (#[trigger] items[k]).index as int;
            &&& drawn_as(buttons, outlines, complete, items, k, i)
            &&& complete || buttons[i].changed
        } by {
            if k < earlier.len() {
                let i = earlier[k].index as int;
                assert(drawn_as(head, outlines, complete, earlier, k, i));
                assert(head[i] == buttons[i]);
            }
        }
        assert forall|k: int, m: int| 0 <= k < m < items.len() implies (
        #[trigger] items[k]).index < (#[trigger] items[m]).index by {
            if m >= earlier.len() {
                let i = earlier[k].index as int;
                assert(drawn_as(head, outlines, complete, earlier, k, i));
            }
        }
    }
}

/// Drawing takes the marks away and changes nothing else of the buttons.
pub proof fn drawing_takes_marks_away(buttons: Seq<ButtonView>, i: int)
    requires
        0 <= i < buttons.len(),
    ensures
        button::settled(buttons).len() == buttons.len(),
        button::settled(buttons)[i] == (ButtonView { changed: false, ..buttons[i] }),
{
}

proof fn lemma_row_keys_only(buttons: Seq<ButtonView>, k: int)
    requires
        0 <= k < button::row_keys(buttons).len(),
    ensures
        exists|b: int|
            0 <= b < buttons.len() && touch_laws::has_key(#[trigger] buttons[b])
                && buttons[b].action == button::row_keys(buttons)[k],
    decreases buttons.len(),
{
    let rest = buttons.drop_last();
    if k < button::row_keys(rest).len() {
        lemma_row_keys_only(rest, k);
        let b = choose|b: int|
            0 <= b < rest.len() && touch_laws::has_key(#[trigger] rest[b]) && rest[b].action
                == button::row_keys(rest)[k];
        assert(buttons[b] == rest[b]);
    } else {
        assert(buttons[buttons.len() - 1] == buttons.last());
    }
}

/// Only keys that some button can send are registered.
pub proof fn registered_keys_are_those_of_buttons(layers: Seq<Seq<ButtonView>>, k: int)
    requires
        0 <= k < button::layer_keys(layers).len(),
    ensures
        exists|l: int, b: int|
            0 <= l < layers.len() && 0 <= b < layers[l].len() && touch_laws::has_key(
                #[trigger] layers[l][b],
            ) && layers[l][b].action == button::layer_keys(layers)[k],
    decreases layers.len(),
{
    let rest = layers.drop_last();
    let n = button::layer_keys(rest).len();
    if k < n {
        registered_keys_are_those_of_buttons(rest, k);
        let (l, b) = choose|l: int, b: int|
            0 <= l < rest.len() && 0 <= b < rest[l].len() && touch_laws::has_key(
                #[trigger] rest[l][b],
            ) && rest[l][b].action == button::layer_keys(rest)[k];
        assert(layers[l][b] == rest[l][b]);
    } else {
        lemma_row_keys_only(layers.last(), k - n);
        let b = choose|b: int|
            0 <= b < layers.last().len() && touch_laws::has_key(#[trigger] layers.last()[b])
                && layers.last()[b].action == button::row_keys(layers.last())[k - n];
        assert(layers[layers.len() - 1][b] == layers.last()[b]);
    }
}

} // verus!
