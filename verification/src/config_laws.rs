//! What holds of every configuration.

use crate::button;
use crate::button::ButtonView;
use crate::config;
use crate::config::{ConfigAction, ConfigEvent, ConfigProxy};
use crate::keys::KEY_ESC;
use crate::session;
use crate::session::{DEFAULT_LAYER, FN_LAYER};
use crate::session_laws;
use crate::shortcut::KeyboardModifiers;
use vstd::prelude::*;

verus! {

/// The file gives none of the options that can be overridden.
pub open spec fn overrides_nothing(user: ConfigProxy) -> bool {
    &&& user.media_layer_default is None
    &&& user.special_extended_mode is None
    &&& user.show_button_outlines is None
    &&& user.enable_pixel_shift is None
    &&& user.font_renderer is None
    &&& user.font_style is None
    &&& user.bold is None
    &&& user.italic is None
    &&& user.font_template is None
    &&& user.emoji_font_template is None
    &&& user.adaptive_brightness is None
    &&& user.active_brightness is None
    &&& user.dim_timeout_ms is None
    &&& user.off_timeout_ms is None
    &&& user.dimmed_brightness is None
    &&& user.fn_mode is None
    &&& user.fn_toggle_press_ms is None
    &&& user.allow_root_commands is None
    &&& user.primary_layer_keys is None
    &&& user.media_layer_keys is None
    &&& user.app_layer_keys1 is None
    &&& user.app_layer_keys2 is None
    &&& user.app_layer_keys3 is None
    &&& user.custom_bars is None
    &&& user.layer_shortcuts is None
    &&& user.redraw_shortcut is None
}

/// A user file that gives nothing changes nothing.
pub proof fn empty_user_file_changes_nothing(base: ConfigProxy, user: ConfigProxy)
    requires
        overrides_nothing(user),
    ensures
        config::merged(base, user) == base,
{
}

/// Merging the same user file again changes nothing.
pub proof fn merging_again_changes_nothing(base: ConfigProxy, user: ConfigProxy)
    ensures
        config::merged(config::merged(base, user), user) == config::merged(base, user),
{
}

/// The first of three options that is given can be found in either order.
broadcast proof fn lemma_either<T>(a: Option<T>, b: Option<T>, c: Option<T>)
    ensures
        #[trigger] config::either(a, config::either(b, c)) == config::either(
            config::either(a, b),
            c,
        ),
{
}

/// It does not matter whether two user files are merged one after the other
/// or the second into the first beforehand.
pub proof fn merging_is_associative(base: ConfigProxy, first: ConfigProxy, second: ConfigProxy)
    ensures
        config::merged(config::merged(base, first), second) == config::merged(
            base,
            config::merged(first, second),
        ),
{
    broadcast use lemma_either;
}

/// A user file takes no option away: what sufficed to run still does, as long
/// as the layers that the file gives describe layers.
pub proof fn user_file_takes_nothing_away(base: ConfigProxy, user: ConfigProxy)
    requires
        base.complete(),
        user.media_layer_keys is Some ==> config::layer_given(user.media_layer_keys),
        user.primary_layer_keys is Some ==> config::layer_given(user.primary_layer_keys),
        user.app_layer_keys1 is Some ==> config::layer_given(user.app_layer_keys1),
        user.app_layer_keys2 is Some ==> config::layer_given(user.app_layer_keys2),
        user.app_layer_keys3 is Some ==> config::layer_given(user.app_layer_keys3),
        config::bars_valid(user.custom_bars),
    ensures
        config::merged(base, user).complete(),
{
}

/// The row with the Escape key in front where the bar is wide enough.
pub open spec fn fronted(row: Seq<ButtonView>, width: u16) -> Seq<ButtonView> {
    if width >= 2170 {
        seq![config::escape_button()] + row
    } else {
        row
    }
}

/// The option `MediaLayerDefault` decides which layer is the default one and
/// which one the Fn key brings up: the media keys and the function keys, or
/// the other way round. In extended mode the first app layer takes the place
/// of the media keys.
pub proof fn media_layer_default_decides(p: ConfigProxy, width: u16)
    requires
        p.complete(),
    ensures
        ({
            let media = fronted(
                if p.special_extended_mode->0 {
                    button::described_layer(p.app_layer_keys1->0@)
                } else {
                    button::described_layer(p.media_layer_keys->0@)
                },
                width,
            );
            let keys = fronted(button::described_layer(p.primary_layer_keys->0@), width);
            let layers = p.layers(width);
            &&& p.media_layer_default->0 ==> layers[DEFAULT_LAYER as int] == media
                && layers[FN_LAYER as int] == keys
            &&& !p.media_layer_default->0 ==> layers[DEFAULT_LAYER as int] == keys
                && layers[FN_LAYER as int] == media
        }),
{
    let plain = p.named_layers() + p.custom_layers();
    assert(plain[0] == p.named_layers()[0]);
    assert(plain[1] == p.named_layers()[1]);
}

/// The further bars have the numbers behind those of the named layers.
pub proof fn custom_bars_follow(p: ConfigProxy, width: u16, i: int)
    requires
        p.complete(),
        p.custom_bars is Some,
        0 <= i < p.custom_bars->0@.len(),
    ensures
        p.layers(width).len() == p.named_layers().len() + p.custom_bars->0@.len(),
        p.layers(width)[p.named_layers().len() + i] == fronted(
            button::described_layer(p.custom_bars->0@[i]@),
            width,
        ),
        p.named_layers().len() == (if p.special_extended_mode->0 {
            4nat
        } else {
            2nat
        }),
{
    let plain = p.named_layers() + p.custom_layers();
    assert(plain[p.named_layers().len() + i] == p.custom_layers()[i]);
}

/// On a wide bar every layer begins with the Escape key.
pub proof fn wide_bars_have_escape(p: ConfigProxy, width: u16, layer: int)
    requires
        p.complete(),
        width >= 2170,
        0 <= layer < p.layers(width).len(),
    ensures
        p.layers(width)[layer].len() > 1,
        p.layers(width)[layer][0].action.code == KEY_ESC,
        button::sends_key(p.layers(width)[layer][0].action),
{
    lemma_plain_layers(p, layer);
}

/// A button that was just built is not highlighted and needs no drawing.
pub open spec fn is_fresh(b: ButtonView) -> bool {
    !b.active && !b.changed
}

/// Every layer of the files has buttons, all of them fresh.
proof fn lemma_plain_layers(p: ConfigProxy, layer: int)
    requires
        p.complete(),
        0 <= layer < (p.named_layers() + p.custom_layers()).len(),
    ensures
        (p.named_layers() + p.custom_layers())[layer].len() > 0,
        forall|b: int|
            0 <= b < (p.named_layers() + p.custom_layers())[layer].len() ==> is_fresh(
                #[trigger] (p.named_layers() + p.custom_layers())[layer][b],
            ),
{
    let n = p.named_layers().len();
    let row = (p.named_layers() + p.custom_layers())[layer];
    if layer < n {
        assert(row == p.named_layers()[layer]);
    } else {
        assert(row == p.custom_layers()[layer - n]);
        assert(button::describes_layer(p.custom_bars->0@[layer - n]@));
    }
}

/// The layers that a configuration gives can be shown: there are at least the
/// default layer and that of the Fn key, each layer has buttons, and none of
/// them is highlighted.
pub proof fn configured_layers_can_be_shown(p: ConfigProxy, width: u16)
    requires
        p.complete(),
    ensures
        p.layers(width).len() >= 2,
        forall|l: int| 0 <= l < p.layers(width).len() ==> (#[trigger] p.layers(width)[l]).len() > 0,
        forall|l: int, b: int|
            session::button_at(p.layers(width), l, b) ==> is_fresh(
                #[trigger] p.layers(width)[l][b],
            ),
        session_laws::all_idle(p.layers(width)),
{
    let plain = p.named_layers() + p.custom_layers();
    let all = p.layers(width);
    assert forall|l: int| 0 <= l < all.len() implies (#[trigger] all[l]).len() > 0 by {
        lemma_plain_layers(p, l);
    }
    assert forall|l: int, b: int| session::button_at(all, l, b) implies is_fresh(
        #[trigger] all[l][b],
    ) by {
        lemma_plain_layers(p, l);
        if width >= 2170 {
            if b > 0 {
                assert(all[l][b] == plain[l][b - 1]);
            }
        } else {
            assert(all[l][b] == plain[l][b]);
        }
    }
}

/// The code of the key with a digit.
pub open spec fn digit_code(digit: int) -> u32 {
    if digit == 0 {
        11
    } else {
        (digit + 1) as u32
    }
}

/// Without shortcuts in the files, Fn and a digit select the layer of that
/// number, whatever the other modifiers, and nothing does without Fn.
pub proof fn digits_select_layers(digit: int, modifiers: KeyboardModifiers)
    requires
        0 <= digit < 10,
    ensures
        config::best_layer(
            config::digit_shortcuts(),
            config::shortcut_hits(config::digit_shortcuts(), digit_code(digit), true, modifiers),
        ) == Some(digit as usize),
        config::best_layer(
            config::digit_shortcuts(),
            config::shortcut_hits(config::digit_shortcuts(), digit_code(digit), false, modifiers),
        ) is None,
{
    let all = config::digit_shortcuts();
    let code = digit_code(digit);
    let hits = config::shortcut_hits(all, code, true, modifiers);
    let misses = config::shortcut_hits(all, code, false, modifiers);
    config::best_shortcut_is_best(all, hits);
    config::best_shortcut_is_best(all, misses);
    assert(hits[digit]);
    assert forall|j: int| 0 <= j < 10 implies #[trigger] hits[j] == (j == digit) by {
        assert(all[j] == config::digit_shortcut(j));
    }
    assert forall|j: int| 0 <= j < 10 implies !#[trigger] misses[j] by {
        assert(all[j] == config::digit_shortcut(j));
    }
}

/// A pending change of the configuration file: the watch that reports it, and,
/// where the files are read again for it, whether that succeeds and which watch
/// is set then.
pub struct PendingChange {
    pub wd: u32,
    pub loaded: bool,
    pub rearmed: Option<u32>,
}

/// The watch after a pending change was dealt with, and whether it took effect.
pub open spec fn change_step(watch: Option<u32>, change: PendingChange) -> (Option<u32>, bool) {
    let (kept, action) = config::config_step(watch, ConfigEvent::Changed(change.wd));
    if action == ConfigAction::Reload {
        let (set, outcome) = config::config_step(
            kept,
            ConfigEvent::Reloaded(change.loaded, change.rearmed),
        );
        (set, outcome == ConfigAction::Apply)
    } else {
        (kept, false)
    }
}

/// The watch that is set once the changes were dealt with in turn.
pub open spec fn watch_after(watch: Option<u32>, changes: Seq<PendingChange>) -> Option<u32>
    decreases changes.len(),
{
    if changes.len() == 0 {
        watch
    } else {
        change_step(watch_after(watch, changes.drop_last()), changes.last()).0
    }
}

/// The change whose configuration is in effect once the changes were dealt with
/// in turn, if any took effect.
pub open spec fn applied_change(watch: Option<u32>, changes: Seq<PendingChange>) -> Option<int>
    decreases changes.len(),
{
    if changes.len() == 0 {
        None
    } else if change_step(watch_after(watch, changes.drop_last()), changes.last()).1 {
        Some(changes.len() - 1)
    } else {
        applied_change(watch, changes.drop_last())
    }
}

/// The change is reported by the watch that is set when its turn comes, and the
/// files are read again successfully.
pub open spec fn reloads(watch: Option<u32>, changes: Seq<PendingChange>, i: int) -> bool {
    &&& 0 <= i < changes.len()
    &&& watch_after(watch, changes.take(i)) == Some(changes[i].wd)
    &&& changes[i].loaded
}

/// The watch after a poll, and the change whose configuration takes effect in
/// it. Where no watch was set, setting one gives `armed`, and the changes are
/// not read.
pub open spec fn polled(
    watch: Option<u32>,
    armed: Option<u32>,
    changes: Seq<PendingChange>,
) -> (Option<u32>, Option<int>) {
    let (kept, action) = config::config_step(watch, ConfigEvent::Poll);
    if action == ConfigAction::Arm {
        (config::config_step(kept, ConfigEvent::Armed(armed)).0, None)
    } else {
        (watch_after(kept, changes), applied_change(kept, changes))
    }
}

proof fn lemma_applied_change(watch: Option<u32>, changes: Seq<PendingChange>)
    ensures
        applied_change(watch, changes) is Some <==> exists|i: int| reloads(watch, changes, i),
        applied_change(watch, changes) matches Some(i) ==> reloads(watch, changes, i) && forall|
            j: int,
        |
            i < j ==> !#[trigger] reloads(watch, changes, j),
        forall|i: int|
            0 <= i < changes.len() ==> #[trigger] watch_after(watch, changes.take(i + 1)) == (
            if watch_after(watch, changes.take(i)) == Some(changes[i].wd) {
                changes[i].rearmed
            } else {
                watch_after(watch, changes.take(i))
            }),
    decreases changes.len(),
{
    if changes.len() > 0 {
        let head = changes.drop_last();
        let last = changes.len() - 1;
        lemma_applied_change(watch, head);
        assert(changes.take(last) =~= head);
        assert forall|i: int| i != last implies #[trigger] reloads(watch, changes, i) == reloads(
            watch,
            head,
            i,
        ) by {
            if 0 <= i < last {
                assert(changes.take(i) =~= head.take(i));
            }
        }
        assert(reloads(watch, changes, last) == change_step(
            watch_after(watch, head),
            changes.last(),
        ).1);
        if applied_change(watch, changes) is None {
            assert forall|i: int| !reloads(watch, changes, i) by {
                if reloads(watch, changes, i) {
                    assert(reloads(watch, head, i));
                }
            }
        } else {
            let i = applied_change(watch, changes)->0;
            assert(reloads(watch, changes, i));
        }
        assert forall|i: int| 0 <= i < changes.len() implies #[trigger] watch_after(
            watch,
            changes.take(i + 1),
        ) == (if watch_after(watch, changes.take(i)) == Some(changes[i].wd) {
            changes[i].rearmed
        } else {
            watch_after(watch, changes.take(i))
        }) by {
            if i < last {
                assert(changes.take(i + 1) =~= head.take(i + 1));
                assert(changes.take(i) =~= head.take(i));
            } else {
                assert(changes.take(i + 1) =~= changes);
            }
        }
    }
}

/// A poll without a watch sets one and changes nothing else. A poll with a
/// watch puts a new configuration into effect exactly where one of the pending
/// changes is reported by the watch set when its turn comes and is read
/// successfully, and the last such change counts. A change that another watch
/// reports leaves the watch as it is; after one of its own the watch is the one
/// set then.
pub proof fn last_reload_counts(
    watch: Option<u32>,
    armed: Option<u32>,
    changes: Seq<PendingChange>,
)
    ensures
        watch is None ==> polled(watch, armed, changes) == (armed, None::<int>),
        watch is Some ==> polled(watch, armed, changes).0 == watch_after(watch, changes),
        polled(watch, armed, changes).1 is Some <==> watch is Some && exists|i: int|
            reloads(watch, changes, i),
        polled(watch, armed, changes).1 matches Some(i) ==> reloads(watch, changes, i) && forall|
            j: int,
        |
            i < j ==> !#[trigger] reloads(watch, changes, j),
        forall|i: int|
            0 <= i < changes.len() ==> #[trigger] watch_after(watch, changes.take(i + 1)) == (
            if watch_after(watch, changes.take(i)) == Some(changes[i].wd) {
                changes[i].rearmed
            } else {
                watch_after(watch, changes.take(i))
            }),
{
    lemma_applied_change(watch, changes);
}

/// The shortcuts that count without any in the files: ten of them, one for each
/// layer from the first to the tenth, each by the code of a digit, with Fn, and
/// whatever the other modifiers.
pub proof fn digit_shortcuts_ask_for_fn(layer: int)
    requires
        0 <= layer < 10,
    ensures
        config::digit_shortcuts().len() == 10,
        ({
            let s = config::digit_shortcuts()[layer];
            &&& s.layer == layer
            &&& s.code == Some(digit_code(layer))
            &&& s.key is None
            &&& s.require_fn == Some(true)
            &&& s.ctrl is None && s.alt is None && s.shift is None && s.super_key is None
        }),
{
}

/// How events around the file are answered: without a watch one is set, with one
/// the changes are read; setting it is answered by nothing. Only a change that
/// the watch reports leads to reading the files again, only files that were read
/// take effect, and the watch is then the one that was set anew.
pub proof fn changes_are_answered(watch: Option<u32>, wd: u32, loaded: bool, set: Option<u32>)
    ensures
        config::config_step(watch, ConfigEvent::Poll).0 == watch,
        config::config_step(watch, ConfigEvent::Poll).1 == ConfigAction::Arm <==> watch is None,
        config::config_step(watch, ConfigEvent::Poll).1 == ConfigAction::Read <==> watch is Some,
        config::config_step(watch, ConfigEvent::Armed(set)) == (set, ConfigAction::Keep),
        config::config_step(watch, ConfigEvent::Changed(wd)).0 == watch,
        config::config_step(watch, ConfigEvent::Changed(wd)).1 == ConfigAction::Reload <==> watch
            == Some(wd),
        config::config_step(watch, ConfigEvent::Changed(wd)).1 == ConfigAction::Keep <==> watch
            != Some(wd),
        config::config_step(watch, ConfigEvent::Reloaded(loaded, set)).0 == set,
        config::config_step(watch, ConfigEvent::Reloaded(loaded, set)).1 == ConfigAction::Apply
            <==> loaded,
        config::config_step(watch, ConfigEvent::Reloaded(loaded, set)).1 == ConfigAction::Keep
            <==> !loaded,
{
}

} // verus!
