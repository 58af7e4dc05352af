//! Keyboard shortcuts: modifiers, matching and the choice of a layer.

use crate::keys;
use crate::keys::{
    parse_key_name, Key, KEY_LEFT_ALT, KEY_LEFT_CTRL, KEY_LEFT_META, KEY_LEFT_SHIFT, KEY_RIGHT_ALT,
    KEY_RIGHT_CTRL, KEY_RIGHT_META, KEY_RIGHT_SHIFT,
};
use crate::text::clone_opt;
use vstd::prelude::*;

verus! {

/// Which modifier keys are held down.
#[derive(Clone, Copy, PartialEq, Eq, Structural, Debug)]
pub struct KeyboardModifiers {
    pub ctrl: bool,
    pub alt: bool,
    pub shift: bool,
    pub super_key: bool,
}

impl Default for KeyboardModifiers {
    fn default() -> (r: Self)
        ensures
            r == (KeyboardModifiers { ctrl: false, alt: false, shift: false, super_key: false }),
    {
        KeyboardModifiers { ctrl: false, alt: false, shift: false, super_key: false }
    }
}

impl KeyboardModifiers {
    /// The modifiers after `key` was pressed or released.
    pub open spec fn updated(self, key: u32, pressed: bool) -> KeyboardModifiers {
        if key == KEY_LEFT_CTRL || key == KEY_RIGHT_CTRL {
            KeyboardModifiers { ctrl: pressed, ..self }
        } else if key == KEY_LEFT_ALT || key == KEY_RIGHT_ALT {
            KeyboardModifiers { alt: pressed, ..self }
        } else if key == KEY_LEFT_SHIFT || key == KEY_RIGHT_SHIFT {
            KeyboardModifiers { shift: pressed, ..self }
        } else if key == KEY_LEFT_META || key == KEY_RIGHT_META {
            KeyboardModifiers { super_key: pressed, ..self }
        } else {
            self
        }
    }

    /// Records that `key` was pressed or released.
    pub fn update(&mut self, key: u32, pressed: bool)
        ensures
            *final(self) == old(self).updated(key, pressed),
    {
        if key == KEY_LEFT_CTRL as u32 || key == KEY_RIGHT_CTRL as u32 {
            self.ctrl = pressed;
        } else if key == KEY_LEFT_ALT as u32 || key == KEY_RIGHT_ALT as u32 {
            self.alt = pressed;
        } else if key == KEY_LEFT_SHIFT as u32 || key == KEY_RIGHT_SHIFT as u32 {
            self.shift = pressed;
        } else if key == KEY_LEFT_META as u32 || key == KEY_RIGHT_META as u32 {
            self.super_key = pressed;
        }
    }
}

/// A condition on a modifier: required, forbidden or irrelevant.
pub open spec fn modifier_allows(required: Option<bool>, active: bool) -> bool {
    required matches Some(wanted) ==> wanted == active
}

/// A key, by name or by code, together with conditions on the modifiers.
pub struct KeyboardShortcut {
    pub key: Option<String>,
    pub code: Option<u32>,
    pub require_fn: Option<bool>,
    pub ctrl: Option<bool>,
    pub alt: Option<bool>,
    pub shift: Option<bool>,
    pub super_key: Option<bool>,
}

impl Clone for KeyboardShortcut {
    fn clone(&self) -> (r: Self)
        ensures
            r == *self,
    {
        KeyboardShortcut {
            key: clone_opt(&self.key),
            code: self.code,
            require_fn: self.require_fn,
            ctrl: self.ctrl,
            alt: self.alt,
            shift: self.shift,
            super_key: self.super_key,
        }
    }
}

impl KeyboardShortcut {
    /// The Fn key and the modifiers are as the shortcut asks.
    pub open spec fn conditions_met(
        self,
        fn_pressed: bool,
        modifiers: KeyboardModifiers,
        default_require_fn: bool,
    ) -> bool {
        &&& match self.require_fn {
            Some(wanted) => wanted == fn_pressed,
            None => default_require_fn ==> fn_pressed,
        }
        &&& modifier_allows(self.ctrl, modifiers.ctrl)
        &&& modifier_allows(self.alt, modifiers.alt)
        &&& modifier_allows(self.shift, modifiers.shift)
        &&& modifier_allows(self.super_key, modifiers.super_key)
    }

    /// The key that the shortcut names, where it has a name that is known.
    pub open spec fn named_key(self) -> Option<Key> {
        match self.key {
            Some(name) => keys::key_named(name@),
            None => None,
        }
    }

    /// The key code that the shortcut waits for, where `named` is the key
    /// that its name stands for: an explicit code wins over the name.
    pub open spec fn awaited_code(self, named: Option<Key>) -> Option<u32> {
        match self.code {
            Some(code) => Some(code),
            None => match named {
                Some(key) => Some(key.code as u32),
                None => None,
            },
        }
    }

    /// `key` completes the shortcut, where `named` is the key that its name
    /// stands for.
    pub open spec fn hit_by(
        self,
        named: Option<Key>,
        key: u32,
        fn_pressed: bool,
        modifiers: KeyboardModifiers,
        default_require_fn: bool,
    ) -> bool {
        &&& self.conditions_met(fn_pressed, modifiers, default_require_fn)
        &&& self.awaited_code(named) == Some(key)
    }

    /// Tells whether a modifier is as required.
    pub fn modifier_ok(required: Option<bool>, active: bool) -> (r: bool)
        ensures
            r == modifier_allows(required, active),
    {
        match required {
            Some(true) => active,
            Some(false) => !active,
            None => true,
        }
    }

    /// Tells whether `key` completes the shortcut, given the key that the
    /// shortcut's name stands for.
    pub fn matches_named(
        &self,
        named: Option<Key>,
        key: u32,
        fn_pressed: bool,
        modifiers: &KeyboardModifiers,
        default_require_fn: bool,
    ) -> (r: bool)
        ensures
            r == self.hit_by(named, key, fn_pressed, *modifiers, default_require_fn),
    {
        match self.require_fn {
            Some(true) => {
                if !fn_pressed {
                    return false;
                }
            },
            Some(false) => {
                if fn_pressed {
                    return false;
                }
            },
            None => {
                if default_require_fn && !fn_pressed {
                    return false;
                }
            },
        }
        if !Self::modifier_ok(self.ctrl, modifiers.ctrl) {
            return false;
        }
        if !Self::modifier_ok(self.alt, modifiers.alt) {
            return false;
        }
        if !Self::modifier_ok(self.shift, modifiers.shift) {
            return false;
        }
        if !Self::modifier_ok(self.super_key, modifiers.super_key) {
            return false;
        }
        if let Some(code) = self.code {
            return code == key;
        }
        match named {
            Some(k) => k.code as u32 == key,
            None => false,
        }
    }

    /// Tells whether `key` completes the shortcut. Where the shortcut says
    /// nothing of the Fn key, `default_require_fn` tells whether it is needed.
    pub fn matches(
        &self,
        key: u32,
        fn_pressed: bool,
        modifiers: &KeyboardModifiers,
        default_require_fn: bool,
    ) -> (r: bool)
        ensures
            r == self.hit_by(self.named_key(), key, fn_pressed, *modifiers, default_require_fn),
    {
        let named = match &self.key {
            Some(name) => parse_key_name(name.as_str()),
            None => None,
        };
        self.matches_named(named, key, fn_pressed, modifiers, default_require_fn)
    }
}

/// A shortcut that selects a layer.
pub struct LayerShortcut {
    pub key: Option<String>,
    pub code: Option<u32>,
    pub layer: usize,
    pub require_fn: Option<bool>,
    pub ctrl: Option<bool>,
    pub alt: Option<bool>,
    pub shift: Option<bool>,
    pub super_key: Option<bool>,
}

impl Clone for LayerShortcut {
    fn clone(&self) -> (r: Self)
        ensures
            r == *self,
    {
        LayerShortcut {
            key: clone_opt(&self.key),
            code: self.code,
            layer: self.layer,
            require_fn: self.require_fn,
            ctrl: self.ctrl,
            alt: self.alt,
            shift: self.shift,
            super_key: self.super_key,
        }
    }
}

/// `points` where the condition is given, nothing where it is not.
pub open spec fn points_for(given: bool, points: nat) -> nat {
    if given {
        points
    } else {
        0
    }
}

fn given_points(given: bool, points: u32) -> (r: u32)
    ensures
        r as nat == points_for(given, points as nat),
        r <= points,
{
    if given {
        points
    } else {
        0
    }
}

impl LayerShortcut {
    /// The key and the conditions, without the layer.
    pub open spec fn as_shortcut(self) -> KeyboardShortcut {
        KeyboardShortcut {
            key: self.key,
            code: self.code,
            require_fn: self.require_fn,
            ctrl: self.ctrl,
            alt: self.alt,
            shift: self.shift,
            super_key: self.super_key,
        }
    }

    /// `key` completes the shortcut; the Fn key is needed unless the shortcut
    /// says otherwise.
    pub open spec fn hit_by(
        self,
        named: Option<Key>,
        key: u32,
        fn_pressed: bool,
        modifiers: KeyboardModifiers,
    ) -> bool {
        self.as_shortcut().hit_by(named, key, fn_pressed, modifiers, true)
    }

    /// How specific the shortcut is, beyond the number of its layer.
    pub open spec fn specificity(self) -> nat {
        points_for(self.require_fn is Some, 64) + points_for(self.ctrl is Some, 16) + points_for(
            self.alt is Some,
            16,
        ) + points_for(self.shift is Some, 16) + points_for(self.super_key is Some, 16)
            + points_for(self.key is Some, 8)
    }

    /// The priority among shortcuts that match at once: the specificity plus
    /// the number of the layer, as a 32-bit number.
    pub open spec fn priority(self) -> nat {
        (self.layer as nat + self.specificity()) % 0x1_0000_0000
    }

    /// The same key and conditions as a plain shortcut.
    pub fn as_keyboard_shortcut(&self) -> (r: KeyboardShortcut)
        ensures
            r == self.as_shortcut(),
    {
        KeyboardShortcut {
            key: clone_opt(&self.key),
            code: self.code,
            require_fn: self.require_fn,
            ctrl: self.ctrl,
            alt: self.alt,
            shift: self.shift,
            super_key: self.super_key,
        }
    }

    fn specificity_points(&self) -> (r: u32)
        ensures
            r as nat == self.specificity(),
            r <= 136,
    {
        let for_fn: u32 = given_points(self.require_fn.is_some(), 64);
        let for_ctrl: u32 = given_points(self.ctrl.is_some(), 16);
        let for_alt: u32 = given_points(self.alt.is_some(), 16);
        let for_shift: u32 = given_points(self.shift.is_some(), 16);
        let for_super: u32 = given_points(self.super_key.is_some(), 16);
        let for_key: u32 = given_points(self.key.is_some(), 8);
        for_fn + for_ctrl + for_alt + for_shift + for_super + for_key
    }

    /// The priority among shortcuts that match at once. The sum is kept to 32
    /// bits, so it wraps around for layer numbers close to that limit.
    pub fn match_priority(&self) -> (r: u32)
        ensures
            r as nat == self.priority(),
    {
        let points: u32 = self.specificity_points();
        let layer: u64 = self.layer as u64;
        let low: u32 = #[verifier::truncate] (layer as u32);
        proof {
            assert(low == layer % 0x1_0000_0000) by (bit_vector)
                requires
                    low == layer as u32,
            ;
            assert((layer % 0x1_0000_0000 + points) % 0x1_0000_0000 == (layer + points)
                % 0x1_0000_0000) by (nonlinear_arith);
        }
        low.wrapping_add(points)
    }

    /// Tells whether `key` completes the shortcut.
    pub fn matches(&self, key: u32, fn_pressed: bool, modifiers: &KeyboardModifiers) -> (r: bool)
        ensures
            r == self.hit_by(self.as_shortcut().named_key(), key, fn_pressed, *modifiers),
    {
        self.as_keyboard_shortcut().matches(key, fn_pressed, modifiers, true)
    }
}

} // verus!
