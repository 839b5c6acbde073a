use bevy_ggrs::input::bits::{test_bit, with_bit};
use bevy_ggrs::input::gamepad_button::{GamepadButton, GamepadButtonInput, GamepadButtonType};
use bevy_ggrs::input::keycode::KeyCodeInput;
use bevy_ggrs::input::mouse_button::{MouseButton, MouseButtonInput};
use bevy_ggrs::input::mouse_position::{CursorPosition, MousePositionInput};
use bevy_ggrs::input::KeyboardAndMouseInput;
use bevy_ggrs::LocalPlayers;

#[test]
fn key_bits_sit_at_bank_and_channel() {
    let mut input = KeyCodeInput::default();
    assert_eq!(input.keycodes, [0u8; 21]);
    input.set(0, true);
    input.set(9, true);
    input.set(167, true);
    assert_eq!(input.keycodes[0], 0b0000_0001);
    assert_eq!(input.keycodes[1], 0b0000_0010);
    assert_eq!(input.keycodes[20], 0b1000_0000);
    assert!(input.get(0));
    assert!(input.get(9));
    assert!(input.get(167));
    assert!(!input.get(1));
    input.set(9, false);
    assert!(!input.get(9));
    assert_eq!(input.keycodes[1], 0);
    assert!(input.get(0));
}

#[test]
fn keys_round_trip_through_the_encoding() {
    let pressed = vec![3u32, 64, 65, 120];
    let input = KeyCodeInput::from_pressed(&pressed);
    for code in 0..168u32 {
        assert_eq!(input.get(code), pressed.contains(&code));
    }
    let other = KeyCodeInput::from_pressed(&vec![120, 65, 3, 64, 3]);
    assert_eq!(input, other);
    assert_ne!(input, KeyCodeInput::from_pressed(&vec![3, 64, 65]));
}

#[test]
fn mouse_buttons_have_their_bits() {
    let mut input = MouseButtonInput::default();
    input.set(MouseButton::Left, true);
    input.set(MouseButton::Middle, true);
    input.set(MouseButton::Other(5), true);
    input.set(MouseButton::Other(20), true);
    assert_eq!(input.mousebuttons, [0b0000_0101, 0b0000_0001, 0b1000_0000]);
    assert!(input.get(MouseButton::Left));
    assert!(!input.get(MouseButton::Right));
    assert!(input.get(MouseButton::Middle));
    assert!(input.get(MouseButton::Other(5)));
    assert!(!input.get(MouseButton::Other(4)));
    input.set(MouseButton::Left, false);
    assert_eq!(input.mousebuttons, [0b0000_0100, 0b0000_0001, 0b1000_0000]);
    assert!(MouseButton::Other(20).is_encodable());
    assert!(!MouseButton::Other(21).is_encodable());
    let same = MouseButtonInput::from_pressed(&vec![
        MouseButton::Other(20),
        MouseButton::Middle,
        MouseButton::Other(5),
    ]);
    assert_eq!(input, same);
}

#[test]
fn gamepad_buttons_have_their_bits() {
    let south = GamepadButton { gamepad: 0, button_type: GamepadButtonType::South };
    let start = GamepadButton { gamepad: 1, button_type: GamepadButtonType::Start };
    let other = GamepadButton { gamepad: 3, button_type: GamepadButtonType::Other(44) };
    let mut input = GamepadButtonInput::default();
    input.set(south, true);
    input.set(start, true);
    input.set(other, true);
    assert_eq!(input.gamepadbuttons[0], 0b0000_0001);
    // Start is button 11 of gamepad 1: bit 75, bank 9, channel 3.
    assert_eq!(input.gamepadbuttons[9], 0b0000_1000);
    // Other(44) is button 63 of gamepad 3: bit 255, bank 31, channel 7.
    assert_eq!(input.gamepadbuttons[31], 0b1000_0000);
    assert!(input.get(south) && input.get(start) && input.get(other));
    assert!(!input.get(GamepadButton { gamepad: 0, button_type: GamepadButtonType::Start }));
    assert!(other.is_encodable());
    assert!(!GamepadButton { gamepad: 4, button_type: GamepadButtonType::South }.is_encodable());
    assert!(!GamepadButton { gamepad: 0, button_type: GamepadButtonType::Other(45) }.is_encodable());
    assert_eq!(input, GamepadButtonInput::from_pressed(&vec![other, south, start]));
}

#[test]
fn no_cursor_is_the_nan_pattern() {
    let fresh = MousePositionInput::default();
    assert_eq!(fresh.x, [0x7f, 0xc0, 0x00, 0x00]);
    assert_eq!(fresh.y, [0x7f, 0xc0, 0x00, 0x00]);
    assert_eq!(fresh.get(), None);
    assert!(f32::from_be_bytes(fresh.x).is_nan());

    let mut input = MousePositionInput::default();
    input.set(Some(CursorPosition { x: 0.25f32.to_bits(), y: 0.75f32.to_bits() }));
    assert!(input.get().is_some());
    input.set(None);
    assert_eq!(input, fresh);
    assert_eq!(input.get(), None);
}

#[test]
fn cursor_position_round_trips_as_big_endian_floats() {
    let mut input = MousePositionInput::default();
    let position = CursorPosition { x: 0.25f32.to_bits(), y: 1.0f32.to_bits() };
    input.set(Some(position));
    assert_eq!(input.x, 0.25f32.to_be_bytes());
    assert_eq!(input.y, 1.0f32.to_be_bytes());
    assert_eq!(input.x, [0x3e, 0x80, 0x00, 0x00]);
    assert_eq!(input.get(), Some(position));
    let read = input.get().unwrap();
    assert_eq!(f32::from_bits(read.x), 0.25);
    assert_eq!(f32::from_bits(read.y), 1.0);
}

#[test]
fn a_cursor_that_is_not_finite_reads_as_no_cursor() {
    let mut input = MousePositionInput::default();
    input.set(Some(CursorPosition { x: f32::INFINITY.to_bits(), y: 0.5f32.to_bits() }));
    assert_eq!(input.get(), None);
    input.set(Some(CursorPosition { x: 0.5f32.to_bits(), y: f32::NEG_INFINITY.to_bits() }));
    assert_eq!(input.get(), None);
    input.set(Some(CursorPosition { x: 0.5f32.to_bits(), y: f32::NAN.to_bits() }));
    assert_eq!(input.get(), None);
    input.set(Some(CursorPosition { x: f32::MAX.to_bits(), y: (-0.0f32).to_bits() }));
    assert!(input.get().is_some());
}

#[test]
fn the_input_is_thirty_two_bytes_in_a_fixed_order() {
    let keys = vec![0u32, 8];
    let buttons = vec![MouseButton::Right];
    let cursor = Some(CursorPosition { x: 0.5f32.to_bits(), y: 0.25f32.to_bits() });
    let input = KeyboardAndMouseInput::encode(&keys, &buttons, cursor);
    let bytes = input.to_bytes();
    assert_eq!(&bytes[0..4], &0.5f32.to_be_bytes());
    assert_eq!(&bytes[4..8], &0.25f32.to_be_bytes());
    assert_eq!(&bytes[8..11], &[0b0000_0010, 0, 0]);
    assert_eq!(bytes[11], 1);
    assert_eq!(bytes[12], 1);
    assert_eq!(&bytes[13..32], &[0u8; 19]);
    assert_eq!(KeyboardAndMouseInput::from_bytes(&bytes), input);
    assert_eq!(KeyboardAndMouseInput::from_bytes(&bytes).to_bytes(), bytes);
}

#[test]
fn the_default_input_is_nothing_held_and_no_cursor() {
    let input = KeyboardAndMouseInput::default();
    assert_eq!(input, KeyboardAndMouseInput::encode(&vec![], &vec![], None));
    let mut expected = [0u8; 32];
    expected[0..4].copy_from_slice(&[0x7f, 0xc0, 0, 0]);
    expected[4..8].copy_from_slice(&[0x7f, 0xc0, 0, 0]);
    assert_eq!(input.to_bytes(), expected);
}

#[test]
fn set_can_be_chained() {
    let mut input = KeyCodeInput::default();
    input.set(1, true).set(2, true).set(1, false);
    assert!(!input.get(1));
    assert!(input.get(2));
}

#[test]
fn equal_state_encodes_to_equal_bytes() {
    let a = KeyboardAndMouseInput::encode(&vec![5, 7], &vec![MouseButton::Left], None);
    let b = KeyboardAndMouseInput::encode(&vec![7, 5, 5], &vec![MouseButton::Left], None);
    let c = KeyboardAndMouseInput::encode(&vec![7], &vec![MouseButton::Left], None);
    assert_eq!(a.to_bytes(), b.to_bytes());
    assert_ne!(a.to_bytes(), c.to_bytes());
}

#[test]
fn every_local_player_gets_the_same_input() {
    let players = LocalPlayers(vec![0, 2]);
    let inputs = KeyboardAndMouseInput::read_local_inputs(
        &vec![10],
        &vec![MouseButton::Middle],
        None,
        &players,
    );
    let expected = KeyboardAndMouseInput::encode(&vec![10], &vec![MouseButton::Middle], None);
    assert_eq!(inputs.0, vec![(0, expected), (2, expected)]);
}

#[test]
fn single_bits_are_read_and_written() {
    assert!(test_bit(0b0001_0000, 4));
    assert!(!test_bit(0b0001_0000, 3));
    assert_eq!(with_bit(0, 7, true), 0b1000_0000);
    assert_eq!(with_bit(0xff, 0, false), 0b1111_1110);
    assert_eq!(with_bit(0b0101, 2, true), 0b0101);
    assert_eq!(with_bit(0b0101, 1, false), 0b0101);
}
