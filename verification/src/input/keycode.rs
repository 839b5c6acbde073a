//! The keys held down, one bit per key.

use crate::input::bits::{
    bit_is_set, lemma_bits_determine_byte, lemma_zero_has_no_bit, test_bit, with_bit,
};
use vstd::prelude::*;

verus! {

/// The number of byte banks.
pub const KEY_BANKS: usize = 21;

/// The number of keys that fit: one per bit.
pub const KEY_CODES: u32 = 168;

/// The bank and the bit of that bank that stand for the key with code
/// `keycode`, its position in the enumeration of keys.
pub open spec fn key_slot(keycode: u32) -> (int, u8) {
    (keycode as int / 8, (keycode % 8) as u8)
}

/// The keys held down. Bit `c % 8` of bank `c / 8` is set exactly when the
/// key with code `c` is down.
#[derive(Clone, Copy, Debug, PartialEq, Eq, Hash)]
pub struct KeyCodeInput {
    pub keycodes: [u8; 21],
}

/// No key down: every bank zero.
impl Default for KeyCodeInput {
    fn default() -> (r: Self)
        ensures
            forall|i: int| 0 <= i < 21 ==> r.keycodes@[i] == 0,
            forall|k: u32| k < KEY_CODES ==> !r.pressed(k),
    {
        let r = KeyCodeInput { keycodes: [0u8; 21] };
        proof {
            assert forall|k: u32| k < KEY_CODES implies !r.pressed(k) by {
                lemma_zero_has_no_bit(key_slot(k).1);
            }
        }
        r
    }
}

impl KeyCodeInput {
    /// Whether the key with code `keycode` is down.
    pub open spec fn pressed(&self, keycode: u32) -> bool {
        bit_is_set(self.keycodes@[key_slot(keycode).0], key_slot(keycode).1)
    }

    fn map(keycode: u32) -> (r: (usize, u8))
        requires
            keycode < KEY_CODES,
        ensures
            r.0 < KEY_BANKS,
            r.1 < 8,
            (r.0 as int, r.1) == key_slot(keycode),
    {
        let channel: u32 = keycode % 8;
        let bank: u32 = (keycode - channel) / 8;
        (bank as usize, channel as u8)
    }

    /// Whether the key with code `keycode` is down.
    pub fn get(&self, keycode: u32) -> (r: bool)
        requires
            keycode < KEY_CODES,
        ensures
            r == self.pressed(keycode),
    {
        let (bank, channel) = Self::map(keycode);
        test_bit(self.keycodes[bank], channel)
    }

    /// Marks the key with code `keycode` as down or up; no other key changes.
    pub fn set(&mut self, keycode: u32, value: bool) -> (r: &mut Self)
        requires
            keycode < KEY_CODES,
        ensures
            r.pressed(keycode) == value,
            forall|k: u32| k < KEY_CODES && k != keycode ==> r.pressed(k) == old(self).pressed(k),
            *final(self) == *final(r),
    {
        let (bank, channel) = Self::map(keycode);
        let updated: u8 = with_bit(self.keycodes[bank], channel, value);
        self.keycodes[bank] = updated;
        proof {
            assert forall|k: u32| k < KEY_CODES && k != keycode implies self.pressed(k) == old(
                self,
            ).pressed(k) by {
                let (b, c) = key_slot(k);
                if b != bank {
                } else {
                    assert(c != channel);
                }
            }
        }
        self
    }
    /// The input in which exactly the keys listed in `pressed` are down.
    pub fn from_pressed(pressed: &Vec<u32>) -> (r: Self)
        requires
            forall|i: int| 0 <= i < pressed@.len() ==> pressed@[i] < KEY_CODES,
        ensures
            forall|k: u32| k < KEY_CODES ==> r.pressed(k) == pressed@.contains(k),
    {
        let mut input = Self::default();
        let mut i: usize = 0;
        while i < pressed.len()
            invariant
                i <= pressed@.len(),
                forall|j: int| 0 <= j < pressed@.len() ==> pressed@[j] < KEY_CODES,
                forall|k: u32|
                    k < KEY_CODES ==> input.pressed(k) == pressed@.subrange(0, i as int).contains(
                        k,
                    ),
            decreases pressed@.len() - i,
        {
            let ghost before = input;
            input.set(pressed[i], true);
            proof {
                let done = pressed@.subrange(0, i as int);
                let next = pressed@.subrange(0, i + 1);
                assert(next =~= done.push(pressed@[i as int]));
                assert forall|k: u32| k < KEY_CODES implies input.pressed(k) == next.contains(
                    k,
                ) by {
                    if k == pressed@[i as int] {
                        assert(next[i as int] == k);
                    } else if done.contains(k) {
                        let j = choose|j: int| 0 <= j < done.len() && done[j] == k;
                        assert(next[j] == k);
                    } else if next.contains(k) {
                        let j = choose|j: int| 0 <= j < next.len() && next[j] == k;
                        assert(done[j] == k);
                    }
                }
            }
            i += 1;
        }
        proof {
            assert(pressed@.subrange(0, i as int) =~= pressed@);
        }
        input
    }
}

/// The encoding is injective: two inputs in which the same keys are down
/// are the same bytes.
pub proof fn lemma_same_keys_same_bytes(a: KeyCodeInput, b: KeyCodeInput)
    requires
        forall|k: u32| k < KEY_CODES ==> a.pressed(k) == b.pressed(k),
    ensures
        a == b,
{
    assert forall|i: int| 0 <= i < 21 implies a.keycodes@[i] == b.keycodes@[i] by {
        assert forall|c: u8| c < 8 implies bit_is_set(a.keycodes@[i], c) == bit_is_set(
            b.keycodes@[i],
            c,
        ) by {
            let k = (i * 8 + c) as u32;
            assert(key_slot(k) == (i, c));
            assert(a.pressed(k) == b.pressed(k));
        }
        lemma_bits_determine_byte(a.keycodes@[i], b.keycodes@[i]);
    }
    assert(a.keycodes =~= b.keycodes);
}

} // verus!
