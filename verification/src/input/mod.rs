//! Fixed-size, byte-exact encodings of local input.

pub mod bits;
pub mod gamepad_button;
pub mod keycode;
pub mod mouse_button;
pub mod mouse_position;

use crate::input::keycode::{lemma_same_keys_same_bytes, KeyCodeInput, KEY_CODES};
use crate::input::mouse_button::{
    lemma_same_buttons_same_bytes, mouse_button_value, MouseButton, MouseButtonInput,
    MOUSE_BUTTONS,
};
use crate::input::mouse_position::{be_bytes, is_finite_bits, CursorPosition, MousePositionInput};
use crate::LocalPlayers;
use vstd::prelude::*;

verus! {

/// How far an input of a player can be relied on.
#[derive(Clone, Copy, Debug, PartialEq, Eq, Structural, Hash)]
pub enum InputStatus {
    /// The input was received from the player.
    Confirmed,
    /// The input is a prediction.
    Predicted,
    /// The player has left; the input is a placeholder.
    Disconnected,
}

/// The inputs of all players for the frame that is being simulated, by
/// player handle.
#[derive(Debug, PartialEq, Eq)]
pub struct PlayerInputs<I>(pub Vec<(I, InputStatus)>);

/// The inputs of the local players for the next frame, by player handle.
#[derive(Debug, PartialEq, Eq)]
pub struct LocalInputs<I>(pub Vec<(usize, I)>);

/// The schedule in which the inputs of the local players are read.
#[derive(Clone, Copy, Debug, PartialEq, Eq, Structural, Hash)]
pub struct ReadInputs;

/// The state of mouse and keyboard: 32 bytes that mean the same on every
/// host.
#[derive(Clone, Copy, Debug, PartialEq, Eq, Hash)]
pub struct KeyboardAndMouseInput {
    pub mouse_position: MousePositionInput,
    pub mouse_buttons: MouseButtonInput,
    pub keyboard_buttons: KeyCodeInput,
}

/// Nothing held down and no cursor.
impl Default for KeyboardAndMouseInput {
    fn default() -> (r: Self)
        ensures
            r.encodes(Seq::empty(), Seq::empty(), None),
    {
        KeyboardAndMouseInput {
            mouse_position: MousePositionInput::default(),
            mouse_buttons: MouseButtonInput::default(),
            keyboard_buttons: KeyCodeInput::default(),
        }
    }
}

impl KeyboardAndMouseInput {
    /// What the encoding of the given state holds: the keys in `keys` and
    /// the buttons in `buttons` down and no others, and the cursor at
    /// `cursor`.
    pub open spec fn encodes(
        &self,
        keys: Seq<u32>,
        buttons: Seq<MouseButton>,
        cursor: Option<CursorPosition>,
    ) -> bool {
        &&& forall|k: u32|
            k < KEY_CODES ==> self.keyboard_buttons.pressed(k) == #[trigger] keys.contains(k)
        &&& forall|b: MouseButton|
            b.encodable() ==> self.mouse_buttons.pressed(b) == #[trigger] buttons.contains(b)
        &&& match cursor {
            Some(p) => {
                &&& self.mouse_position.x@ == be_bytes(p.x)
                &&& self.mouse_position.y@ == be_bytes(p.y)
                &&& self.mouse_position.position() == if is_finite_bits(p.x) && is_finite_bits(
                    p.y,
                ) {
                    Some(p)
                } else {
                    None
                }
            },
            None => self.mouse_position.is_absent() && self.mouse_position.position().is_none(),
        }
    }

    /// The encoding of the given state: `keys` and `buttons` list what is
    /// held down, `cursor` is the cursor's normalized position in the
    /// primary window, if there is such a window and the cursor is in it.
    pub fn encode(
        keys: &Vec<u32>,
        buttons: &Vec<MouseButton>,
        cursor: Option<CursorPosition>,
    ) -> (r: Self)
        requires
            forall|i: int| 0 <= i < keys@.len() ==> keys@[i] < KEY_CODES,
            forall|i: int| 0 <= i < buttons@.len() ==> buttons@[i].encodable(),
        ensures
            r.encodes(keys@, buttons@, cursor),
    {
        let keyboard_buttons = KeyCodeInput::from_pressed(keys);
        let mouse_buttons = MouseButtonInput::from_pressed(buttons);
        let mut mouse_position = MousePositionInput::default();
        mouse_position.set(cursor);
        KeyboardAndMouseInput { keyboard_buttons, mouse_buttons, mouse_position }
    }

    /// Reads the state of mouse and keyboard once and hands the same
    /// encoding to every local player, in the order of their handles in
    /// `local_players`.
    pub fn read_local_inputs(
        keys: &Vec<u32>,
        buttons: &Vec<MouseButton>,
        cursor: Option<CursorPosition>,
        local_players: &LocalPlayers,
    ) -> (r: LocalInputs<KeyboardAndMouseInput>)
        requires
            forall|i: int| 0 <= i < keys@.len() ==> keys@[i] < KEY_CODES,
            forall|i: int| 0 <= i < buttons@.len() ==> buttons@[i].encodable(),
        ensures
            r.0@.len() == local_players.0@.len(),
            forall|i: int|
                0 <= i < r.0@.len() ==> {
                    &&& (#[trigger] r.0@[i]).0 == local_players.0@[i]
                    &&& r.0@[i].1.encodes(keys@, buttons@, cursor)
                    &&& r.0@[i].1 == r.0@[0].1
                },
    {
        let input = Self::encode(keys, buttons, cursor);
        let mut local_inputs: Vec<(usize, KeyboardAndMouseInput)> = Vec::new();
        let mut i: usize = 0;
        while i < local_players.0.len()
            invariant
                i <= local_players.0@.len(),
                input.encodes(keys@, buttons@, cursor),
                local_inputs@.len() == i,
                forall|j: int|
                    0 <= j < i ==> (#[trigger] local_inputs@[j]) == (local_players.0@[j], input),
            decreases local_players.0@.len() - i,
        {
            local_inputs.push((local_players.0[i], input));
            i += 1;
        }
        LocalInputs(local_inputs)
    }

    /// The 32 bytes of the encoding: the cursor's two coordinates, the
    /// banks of the mouse buttons, the banks of the keys.
    pub open spec fn bytes(&self) -> Seq<u8> {
        self.mouse_position.x@ + self.mouse_position.y@ + self.mouse_buttons.mousebuttons@
            + self.keyboard_buttons.keycodes@
    }

    /// The encoding as bytes, for the wire and for the input history.
    pub fn to_bytes(&self) -> (r: [u8; 32])
        ensures
            r@ == self.bytes(),
    {
        let mut out = [0u8; 32];
        let mut i: usize = 0;
        while i < 4
            invariant
                i <= 4,
                forall|j: int| 0 <= j < i ==> out@[j] == self.mouse_position.x@[j],
                forall|j: int| 0 <= j < i ==> out@[4 + j] == self.mouse_position.y@[j],
            decreases 4 - i,
        {
            out[i] = self.mouse_position.x[i];
            out[4 + i] = self.mouse_position.y[i];
            i += 1;
        }
        let mut i: usize = 0;
        while i < 3
            invariant
                i <= 3,
                forall|j: int| 0 <= j < 4 ==> out@[j] == self.mouse_position.x@[j],
                forall|j: int| 0 <= j < 4 ==> out@[4 + j] == self.mouse_position.y@[j],
                forall|j: int| 0 <= j < i ==> out@[8 + j] == self.mouse_buttons.mousebuttons@[j],
            decreases 3 - i,
        {
            out[8 + i] = self.mouse_buttons.mousebuttons[i];
            i += 1;
        }
        let mut i: usize = 0;
        while i < 21
            invariant
                i <= 21,
                forall|j: int| 0 <= j < 4 ==> out@[j] == self.mouse_position.x@[j],
                forall|j: int| 0 <= j < 4 ==> out@[4 + j] == self.mouse_position.y@[j],
                forall|j: int| 0 <= j < 3 ==> out@[8 + j] == self.mouse_buttons.mousebuttons@[j],
                forall|j: int| 0 <= j < i ==> out@[11 + j] == self.keyboard_buttons.keycodes@[j],
            decreases 21 - i,
        {
            out[11 + i] = self.keyboard_buttons.keycodes[i];
            i += 1;
        }
        assert(out@ =~= self.bytes());
        out
    }

    /// The encoding that `bytes` are.
    pub fn from_bytes(bytes: &[u8; 32]) -> (r: Self)
        ensures
            r.bytes() == bytes@,
    {
        let mut x = [0u8; 4];
        let mut y = [0u8; 4];
        let mut mousebuttons = [0u8; 3];
        let mut keycodes = [0u8; 21];
        let mut i: usize = 0;
        while i < 4
            invariant
                i <= 4,
                forall|j: int| 0 <= j < i ==> x@[j] == bytes@[j],
                forall|j: int| 0 <= j < i ==> y@[j] == bytes@[4 + j],
            decreases 4 - i,
        {
            x[i] = bytes[i];
            y[i] = bytes[4 + i];
            i += 1;
        }
        let mut i: usize = 0;
        while i < 3
            invariant
                i <= 3,
                forall|j: int| 0 <= j < i ==> mousebuttons@[j] == bytes@[8 + j],
            decreases 3 - i,
        {
            mousebuttons[i] = bytes[8 + i];
            i += 1;
        }
        let mut i: usize = 0;
        while i < 21
            invariant
                i <= 21,
                forall|j: int| 0 <= j < i ==> keycodes@[j] == bytes@[11 + j],
            decreases 21 - i,
        {
            keycodes[i] = bytes[11 + i];
            i += 1;
        }
        let r = KeyboardAndMouseInput {
            mouse_position: MousePositionInput { x, y },
            mouse_buttons: MouseButtonInput { mousebuttons },
            keyboard_buttons: KeyCodeInput { keycodes },
        };
        assert(r.bytes() =~= bytes@);
        r
    }
}

/// Decoding undoes encoding and the encoding is injective: an input is
/// what its bytes say, so two inputs with the same bytes are the same
/// input.
pub proof fn lemma_bytes_determine_input(a: KeyboardAndMouseInput, b: KeyboardAndMouseInput)
    requires
        a.bytes() == b.bytes(),
    ensures
        a == b,
{
    let s = a.bytes();
    let t = b.bytes();
    assert forall|j: int| 0 <= j < 4 implies a.mouse_position.x@[j] == b.mouse_position.x@[j] by {
        assert(s[j] == t[j]);
    }
    assert forall|j: int| 0 <= j < 4 implies a.mouse_position.y@[j] == b.mouse_position.y@[j] by {
        assert(s[4 + j] == t[4 + j]);
    }
    assert forall|j: int| 0 <= j < 3 implies a.mouse_buttons.mousebuttons@[j]
        == b.mouse_buttons.mousebuttons@[j] by {
        assert(s[8 + j] == t[8 + j]);
    }
    assert forall|j: int| 0 <= j < 21 implies a.keyboard_buttons.keycodes@[j]
        == b.keyboard_buttons.keycodes@[j] by {
        assert(s[11 + j] == t[11 + j]);
    }
    assert(a.mouse_position.x =~= b.mouse_position.x);
    assert(a.mouse_position.y =~= b.mouse_position.y);
    assert(a.mouse_buttons.mousebuttons =~= b.mouse_buttons.mousebuttons);
    assert(a.keyboard_buttons.keycodes =~= b.keyboard_buttons.keycodes);
}

/// The encoding is determined by the state: two encodings of the same keys,
/// buttons and cursor are the same bytes.
pub proof fn lemma_same_state_same_input(
    a: KeyboardAndMouseInput,
    b: KeyboardAndMouseInput,
    keys: Seq<u32>,
    buttons: Seq<MouseButton>,
    cursor: Option<CursorPosition>,
)
    requires
        a.encodes(keys, buttons, cursor),
        b.encodes(keys, buttons, cursor),
    ensures
        a == b,
        a.bytes() == b.bytes(),
{
    assert forall|k: u32| k < KEY_CODES implies a.keyboard_buttons.pressed(k)
        == b.keyboard_buttons.pressed(k) by {
        assert(a.keyboard_buttons.pressed(k) == keys.contains(k));
    }
    lemma_same_keys_same_bytes(a.keyboard_buttons, b.keyboard_buttons);
    assert forall|v: u32| v < MOUSE_BUTTONS implies a.mouse_buttons.pressed_at(v)
        == b.mouse_buttons.pressed_at(v) by {
        let button = if v == 0 {
            MouseButton::Left
        } else if v == 1 {
            MouseButton::Right
        } else if v == 2 {
            MouseButton::Middle
        } else {
            MouseButton::Other((v - 3) as u16)
        };
        assert(mouse_button_value(button) == v);
        assert(a.mouse_buttons.pressed(button) == buttons.contains(button));
    }
    lemma_same_buttons_same_bytes(a.mouse_buttons, b.mouse_buttons);
    assert(a.mouse_position.x =~= b.mouse_position.x);
    assert(a.mouse_position.y =~= b.mouse_position.y);
}

} // verus!
