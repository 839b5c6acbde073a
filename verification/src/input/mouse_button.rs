//! The mouse buttons held down, one bit per button.

use crate::input::bits::{
    bit_is_set, lemma_bits_determine_byte, lemma_zero_has_no_bit, test_bit, with_bit,
};
use vstd::prelude::*;

verus! {

/// The number of byte banks.
pub const MOUSE_BANKS: usize = 3;

/// The number of buttons that fit: one per bit.
pub const MOUSE_BUTTONS: u32 = 24;

/// A button on a mouse.
#[derive(Clone, Copy, Debug, PartialEq, Eq, Structural, Hash)]
pub enum MouseButton {
    Left,
    Right,
    Middle,
    /// Another button, by its number.
    Other(u16),
}

/// The position of `button` in the enumeration of mouse buttons.
pub open spec fn mouse_button_value(button: MouseButton) -> u32 {
    match button {
        MouseButton::Left => 0,
        MouseButton::Right => 1,
        MouseButton::Middle => 2,
        MouseButton::Other(value) => (3 + value) as u32,
    }
}

/// The bank and the bit of that bank that stand for the button at position
/// `value`.
pub open spec fn mouse_slot(value: u32) -> (int, u8) {
    (value as int / 8, (value % 8) as u8)
}

impl MouseButton {
    /// Whether the encoding has a bit for this button: the three named
    /// buttons and the first 21 numbered ones.
    pub open spec fn encodable(&self) -> bool {
        mouse_button_value(*self) < MOUSE_BUTTONS
    }

    /// Whether the encoding has a bit for this button.
    pub fn is_encodable(&self) -> (r: bool)
        ensures
            r == self.encodable(),
    {
        match self {
            MouseButton::Other(value) => *value < 21,
            _ => true,
        }
    }
}

/// The mouse buttons held down. With `v` the position of a button, bit
/// `v % 8` of bank `v / 8` is set exactly when that button is down.
#[derive(Clone, Copy, Debug, PartialEq, Eq, Hash)]
pub struct MouseButtonInput {
    pub mousebuttons: [u8; 3],
}

/// No button down: every bank zero.
impl Default for MouseButtonInput {
    fn default() -> (r: Self)
        ensures
            forall|i: int| 0 <= i < 3 ==> r.mousebuttons@[i] == 0,
            forall|v: u32| v < MOUSE_BUTTONS ==> !r.pressed_at(v),
    {
        let r = MouseButtonInput { mousebuttons: [0u8; 3] };
        proof {
            assert forall|v: u32| v < MOUSE_BUTTONS implies !r.pressed_at(v) by {
                lemma_zero_has_no_bit(mouse_slot(v).1);
            }
        }
        r
    }
}

impl MouseButtonInput {
    /// Whether the button at position `value` is down.
    pub open spec fn pressed_at(&self, value: u32) -> bool {
        bit_is_set(self.mousebuttons@[mouse_slot(value).0], mouse_slot(value).1)
    }

    /// Whether `button` is down.
    pub open spec fn pressed(&self, button: MouseButton) -> bool {
        self.pressed_at(mouse_button_value(button))
    }

    fn map(mouse_button: MouseButton) -> (r: (usize, u8))
        requires
            mouse_button.encodable(),
        ensures
            r.0 < MOUSE_BANKS,
            r.1 < 8,
            (r.0 as int, r.1) == mouse_slot(mouse_button_value(mouse_button)),
    {
        let mouse_button_value: u32 = match mouse_button {
            MouseButton::Left => 0,
            MouseButton::Right => 1,
            MouseButton::Middle => 2,
            MouseButton::Other(value) => 3 + (value as u32),
        };
        let bank = (mouse_button_value / 8) as usize;
        let channel = (mouse_button_value % 8) as u8;
        (bank, channel)
    }

    /// Whether `mouse_button` is down.
    pub fn get(&self, mouse_button: MouseButton) -> (r: bool)
        requires
            mouse_button.encodable(),
        ensures
            r == self.pressed(mouse_button),
    {
        let (bank, channel) = Self::map(mouse_button);
        test_bit(self.mousebuttons[bank], channel)
    }

    /// Marks `mouse_button` as down or up; no other button changes.
    pub fn set(&mut self, mouse_button: MouseButton, value: bool) -> (r: &mut Self)
        requires
            mouse_button.encodable(),
        ensures
            r.pressed(mouse_button) == value,
            forall|v: u32|
                v < MOUSE_BUTTONS && v != mouse_button_value(mouse_button) ==> r.pressed_at(v)
                    == old(self).pressed_at(v),
            *final(self) == *final(r),
    {
        let (bank, channel) = Self::map(mouse_button);
        let updated: u8 = with_bit(self.mousebuttons[bank], channel, value);
        self.mousebuttons[bank] = updated;
        proof {
            assert forall|v: u32|
                v < MOUSE_BUTTONS && v != mouse_button_value(mouse_button) implies self.pressed_at(
                v,
            ) == old(self).pressed_at(v) by {
                let (b, c) = mouse_slot(v);
                if b != bank {
                } else {
                    assert(c != channel);
                }
            }
        }
        self
    }

    /// The input in which exactly the buttons listed in `pressed` are down.
    pub fn from_pressed(pressed: &Vec<MouseButton>) -> (r: Self)
        requires
            forall|i: int| 0 <= i < pressed@.len() ==> pressed@[i].encodable(),
        ensures
            forall|b: MouseButton| b.encodable() ==> r.pressed(b) == pressed@.contains(b),
    {
        let mut input = Self::default();
        let mut i: usize = 0;
        while i < pressed.len()
            invariant
                i <= pressed@.len(),
                forall|j: int| 0 <= j < pressed@.len() ==> pressed@[j].encodable(),
                forall|b: MouseButton|
                    b.encodable() ==> input.pressed(b) == pressed@.subrange(0, i as int).contains(
                        b,
                    ),
            decreases pressed@.len() - i,
        {
            input.set(pressed[i], true);
            proof {
                let done = pressed@.subrange(0, i as int);
                let next = pressed@.subrange(0, i + 1);
                assert(next =~= done.push(pressed@[i as int]));
                assert forall|b: MouseButton| b.encodable() implies input.pressed(b)
                    == next.contains(b) by {
                    if b == pressed@[i as int] {
                        assert(next[i as int] == b);
                    } else {
                        assert(mouse_button_value(b) != mouse_button_value(pressed@[i as int]));
                        if done.contains(b) {
                            let j = choose|j: int| 0 <= j < done.len() && done[j] == b;
                            assert(next[j] == b);
                        } else if next.contains(b) {
                            let j = choose|j: int| 0 <= j < next.len() && next[j] == b;
                            assert(done[j] == b);
                        }
                    }
                }
            }
            i += 1;
        }
        proof {
            assert(pressed@.subrange(0, i as int) =~= pressed@);
        }
        input
    }
}

/// The encoding is injective: two inputs in which the same buttons are down
/// are the same bytes.
pub proof fn lemma_same_buttons_same_bytes(a: MouseButtonInput, b: MouseButtonInput)
    requires
        forall|v: u32| v < MOUSE_BUTTONS ==> a.pressed_at(v) == b.pressed_at(v),
    ensures
        a == b,
{
    assert forall|i: int| 0 <= i < 3 implies a.mousebuttons@[i] == b.mousebuttons@[i] by {
        assert forall|c: u8| c < 8 implies bit_is_set(a.mousebuttons@[i], c) == bit_is_set(
            b.mousebuttons@[i],
            c,
        ) by {
            let v = (i * 8 + c) as u32;
            assert(mouse_slot(v) == (i, c));
            assert(a.pressed_at(v) == b.pressed_at(v));
        }
        lemma_bits_determine_byte(a.mousebuttons@[i], b.mousebuttons@[i]);
    }
    assert(a.mousebuttons =~= b.mousebuttons);
}

} // verus!
