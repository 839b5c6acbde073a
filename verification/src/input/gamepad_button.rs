//! The gamepad buttons held down on up to four gamepads, one bit per button.

use crate::input::bits::{
    bit_is_set, lemma_bits_determine_byte, lemma_zero_has_no_bit, test_bit, with_bit,
};
use vstd::prelude::*;

verus! {

/// The number of byte banks.
pub const GAMEPAD_BANKS: usize = 32;

/// The number of gamepads that fit.
pub const MAX_GAMEPADS: u32 = 4;

/// The number of buttons that fit for each gamepad.
pub const MAX_BUTTONS: u32 = 64;

/// The number of bits: one per button of each gamepad.
pub const GAMEPAD_SLOTS: u32 = 256;

/// A kind of button on a gamepad.
#[derive(Clone, Copy, Debug, PartialEq, Eq, Structural, Hash)]
pub enum GamepadButtonType {
    South,
    East,
    North,
    West,
    C,
    Z,
    LeftTrigger,
    LeftTrigger2,
    RightTrigger,
    RightTrigger2,
    Select,
    Start,
    Mode,
    LeftThumb,
    RightThumb,
    DPadUp,
    DPadDown,
    DPadLeft,
    DPadRight,
    /// Another button, by its number.
    Other(u8),
}

/// A button of one gamepad.
#[derive(Clone, Copy, Debug, PartialEq, Eq, Structural, Hash)]
pub struct GamepadButton {
    /// The number of the gamepad.
    pub gamepad: usize,
    pub button_type: GamepadButtonType,
}

/// The position of `button_type` in the enumeration of gamepad buttons.
pub open spec fn gamepad_button_type_value(button_type: GamepadButtonType) -> u32 {
    match button_type {
        GamepadButtonType::South => 0,
        GamepadButtonType::East => 1,
        GamepadButtonType::North => 2,
        GamepadButtonType::West => 3,
        GamepadButtonType::C => 4,
        GamepadButtonType::Z => 5,
        GamepadButtonType::LeftTrigger => 6,
        GamepadButtonType::LeftTrigger2 => 7,
        GamepadButtonType::RightTrigger => 8,
        GamepadButtonType::RightTrigger2 => 9,
        GamepadButtonType::Select => 10,
        GamepadButtonType::Start => 11,
        GamepadButtonType::Mode => 12,
        GamepadButtonType::LeftThumb => 13,
        GamepadButtonType::RightThumb => 14,
        GamepadButtonType::DPadUp => 15,
        GamepadButtonType::DPadDown => 16,
        GamepadButtonType::DPadLeft => 17,
        GamepadButtonType::DPadRight => 18,
        GamepadButtonType::Other(other) => (19 + other) as u32,
    }
}

/// The position of `button` among all buttons of all gamepads: the buttons
/// of gamepad 0 first, then those of gamepad 1, and so on.
pub open spec fn gamepad_button_value(button: GamepadButton) -> int {
    gamepad_button_type_value(button.button_type) + MAX_BUTTONS * button.gamepad
}

/// The bank and the bit of that bank that stand for the button at position
/// `value`.
pub open spec fn gamepad_slot(value: int) -> (int, u8) {
    (value / 8, (value % 8) as u8)
}

impl GamepadButton {
    /// Whether the encoding has a bit for this button: one of the first four
    /// gamepads and one of the first 64 kinds of button.
    pub open spec fn encodable(&self) -> bool {
        &&& self.gamepad < MAX_GAMEPADS
        &&& gamepad_button_type_value(self.button_type) < MAX_BUTTONS
    }

    /// Whether the encoding has a bit for this button.
    pub fn is_encodable(&self) -> (r: bool)
        ensures
            r == self.encodable(),
    {
        let kind_fits = match self.button_type {
            GamepadButtonType::Other(other) => other < 45,
            _ => true,
        };
        self.gamepad < 4 && kind_fits
    }
}

/// The gamepad buttons held down. With `v` the position of a button, bit
/// `v % 8` of bank `v / 8` is set exactly when that button is down.
#[derive(Clone, Copy, Debug, PartialEq, Eq, Hash)]
pub struct GamepadButtonInput {
    pub gamepadbuttons: [u8; 32],
}

/// No button down: every bank zero.
impl Default for GamepadButtonInput {
    fn default() -> (r: Self)
        ensures
            forall|i: int| 0 <= i < 32 ==> r.gamepadbuttons@[i] == 0,
            forall|v: int| 0 <= v < GAMEPAD_SLOTS ==> !r.pressed_at(v),
    {
        let r = GamepadButtonInput { gamepadbuttons: [0u8; 32] };
        proof {
            assert forall|v: int| 0 <= v < GAMEPAD_SLOTS implies !r.pressed_at(v) by {
                lemma_zero_has_no_bit(gamepad_slot(v).1);
            }
        }
        r
    }
}

impl GamepadButtonInput {
    /// Whether the button at position `value` is down.
    pub open spec fn pressed_at(&self, value: int) -> bool {
        bit_is_set(self.gamepadbuttons@[gamepad_slot(value).0], gamepad_slot(value).1)
    }

    /// Whether `button` is down.
    pub open spec fn pressed(&self, button: GamepadButton) -> bool {
        self.pressed_at(gamepad_button_value(button))
    }

    fn map(gamepad_button: GamepadButton) -> (r: (usize, u8))
        requires
            gamepad_button.encodable(),
        ensures
            r.0 < GAMEPAD_BANKS,
            r.1 < 8,
            (r.0 as int, r.1) == gamepad_slot(gamepad_button_value(gamepad_button)),
    {
        let gamepad = gamepad_button.gamepad as u32;
        let gamepad_button_value: u32 = match gamepad_button.button_type {
            GamepadButtonType::South => 0,
            GamepadButtonType::East => 1,
            GamepadButtonType::North => 2,
            GamepadButtonType::West => 3,
            GamepadButtonType::C => 4,
            GamepadButtonType::Z => 5,
            GamepadButtonType::LeftTrigger => 6,
            GamepadButtonType::LeftTrigger2 => 7,
            GamepadButtonType::RightTrigger => 8,
            GamepadButtonType::RightTrigger2 => 9,
            GamepadButtonType::Select => 10,
            GamepadButtonType::Start => 11,
            GamepadButtonType::Mode => 12,
            GamepadButtonType::LeftThumb => 13,
            GamepadButtonType::RightThumb => 14,
            GamepadButtonType::DPadUp => 15,
            GamepadButtonType::DPadDown => 16,
            GamepadButtonType::DPadLeft => 17,
            GamepadButtonType::DPadRight => 18,
            GamepadButtonType::Other(other) => 19 + (other as u32),
        };
        let gamepad_button_value: u32 = gamepad_button_value + MAX_BUTTONS * gamepad;
        let bank = (gamepad_button_value / 8) as usize;
        let channel = (gamepad_button_value % 8) as u8;
        (bank, channel)
    }

    /// Whether `gamepad_button` is down.
    pub fn get(&self, gamepad_button: GamepadButton) -> (r: bool)
        requires
            gamepad_button.encodable(),
        ensures
            r == self.pressed(gamepad_button),
    {
        let (bank, channel) = Self::map(gamepad_button);
        test_bit(self.gamepadbuttons[bank], channel)
    }

    /// Marks `gamepad_button` as down or up; no other button changes.
    pub fn set(&mut self, gamepad_button: GamepadButton, value: bool) -> (r: &mut Self)
        requires
            gamepad_button.encodable(),
        ensures
            r.pressed(gamepad_button) == value,
            forall|v: int|
                0 <= v < GAMEPAD_SLOTS && v != gamepad_button_value(gamepad_button)
                    ==> r.pressed_at(v) == old(self).pressed_at(v),
            *final(self) == *final(r),
    {
        let (bank, channel) = Self::map(gamepad_button);
        let updated: u8 = with_bit(self.gamepadbuttons[bank], channel, value);
        self.gamepadbuttons[bank] = updated;
        proof {
            assert forall|v: int|
                0 <= v < GAMEPAD_SLOTS && v != gamepad_button_value(
                    gamepad_button,
                ) implies self.pressed_at(v) == old(self).pressed_at(v) by {
                let (b, c) = gamepad_slot(v);
                if b != bank {
                } else {
                    assert(c != channel);
                }
            }
        }
        self
    }

    /// The input in which exactly the buttons listed in `pressed` are down.
    pub fn from_pressed(pressed: &Vec<GamepadButton>) -> (r: Self)
        requires
            forall|i: int| 0 <= i < pressed@.len() ==> pressed@[i].encodable(),
        ensures
            forall|b: GamepadButton| b.encodable() ==> r.pressed(b) == pressed@.contains(b),
    {
        let mut input = Self::default();
        let mut i: usize = 0;
        while i < pressed.len()
            invariant
                i <= pressed@.len(),
                forall|j: int| 0 <= j < pressed@.len() ==> pressed@[j].encodable(),
                forall|b: GamepadButton|
                    b.encodable() ==> input.pressed(b) == pressed@.subrange(0, i as int).contains(
                        b,
                    ),
            decreases pressed@.len() - i,
        {
            input.set(pressed[i], true);
            proof {
                let done = pressed@.subrange(0, i as int);
                let next = pressed@.subrange(0, i + 1);
                assert(next =~= done.push(pressed@[i as int]));
                assert forall|b: GamepadButton| b.encodable() implies input.pressed(b)
                    == next.contains(b) by {
                    if b == pressed@[i as int] {
                        assert(next[i as int] == b);
                    } else {
                        lemma_value_identifies_button(b, pressed@[i as int]);
                        if done.contains(b) {
                            let j = choose|j: int| 0 <= j < done.len() && done[j] == b;
                            assert(next[j] == b);
                        } else if next.contains(b) {
                            let j = choose|j: int| 0 <= j < next.len() && next[j] == b;
                            assert(done[j] == b);
                        }
                    }
                }
            }
            i += 1;
        }
        proof {
            assert(pressed@.subrange(0, i as int) =~= pressed@);
        }
        input
    }
}

/// Every button that the encoding has a bit for has a bit of its own, among
/// the 256.
pub proof fn lemma_value_identifies_button(a: GamepadButton, b: GamepadButton)
    requires
        a.encodable(),
        b.encodable(),
    ensures
        0 <= gamepad_button_value(a) < GAMEPAD_SLOTS,
        a != b ==> gamepad_button_value(a) != gamepad_button_value(b),
{
}

/// The encoding is injective: two inputs in which the same buttons are down
/// are the same bytes.
pub proof fn lemma_same_gamepad_buttons_same_bytes(a: GamepadButtonInput, b: GamepadButtonInput)
    requires
        forall|v: int| 0 <= v < GAMEPAD_SLOTS ==> a.pressed_at(v) == b.pressed_at(v),
    ensures
        a == b,
{
    assert forall|i: int| 0 <= i < 32 implies a.gamepadbuttons@[i] == b.gamepadbuttons@[i] by {
        assert forall|c: u8| c < 8 implies bit_is_set(a.gamepadbuttons@[i], c) == bit_is_set(
            b.gamepadbuttons@[i],
            c,
        ) by {
            let v = i * 8 + c;
            assert(gamepad_slot(v) == (i, c));
            assert(a.pressed_at(v) == b.pressed_at(v));
        }
        lemma_bits_determine_byte(a.gamepadbuttons@[i], b.gamepadbuttons@[i]);
    }
    assert(a.gamepadbuttons =~= b.gamepadbuttons);
}

} // verus!
