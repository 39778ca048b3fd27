//! Layer selection and the fixed, build-time layout tables.
//!
//! A layout table maps (half, layer, position) to an output code: either
//! a keyboard-page usage or a consumer-page (media) usage, with one "no
//! event" sentinel per kind. The left half has two layers, the right
//! half four; each half's function keys select its layer.

use vstd::prelude::*;

verus! {

use crate::bitset::PrimitiveBitset;
use MultiKey::ConsumerKey;
use MultiKey::KeyboardKey;

/// An output code of one of the two report kinds: a keyboard-page usage
/// or a consumer-page (media) usage.
#[derive(Clone, Copy, PartialEq, Eq, Structural, Debug)]
pub enum MultiKey {
    KeyboardKey(u8),
    ConsumerKey(u16),
}

/// Keyboard-page usage: no event (the primary report's sentinel).
pub const KB_NO_EVENT: u8 = 0x00;

pub const KB_A: u8 = 0x04;

pub const KB_B: u8 = 0x05;

pub const KB_C: u8 = 0x06;

pub const KB_D: u8 = 0x07;

pub const KB_E: u8 = 0x08;

pub const KB_F: u8 = 0x09;

pub const KB_G: u8 = 0x0A;

pub const KB_H: u8 = 0x0B;

pub const KB_I: u8 = 0x0C;

pub const KB_J: u8 = 0x0D;

pub const KB_K: u8 = 0x0E;

pub const KB_L: u8 = 0x0F;

pub const KB_M: u8 = 0x10;

pub const KB_N: u8 = 0x11;

pub const KB_O: u8 = 0x12;

pub const KB_P: u8 = 0x13;

pub const KB_Q: u8 = 0x14;

pub const KB_R: u8 = 0x15;

pub const KB_S: u8 = 0x16;

pub const KB_T: u8 = 0x17;

pub const KB_U: u8 = 0x18;

pub const KB_V: u8 = 0x19;

pub const KB_W: u8 = 0x1A;

pub const KB_X: u8 = 0x1B;

pub const KB_Y: u8 = 0x1C;

pub const KB_Z: u8 = 0x1D;

pub const KB_1: u8 = 0x1E;

pub const KB_2: u8 = 0x1F;

pub const KB_3: u8 = 0x20;

pub const KB_4: u8 = 0x21;

pub const KB_5: u8 = 0x22;

pub const KB_6: u8 = 0x23;

pub const KB_7: u8 = 0x24;

pub const KB_8: u8 = 0x25;

pub const KB_9: u8 = 0x26;

pub const KB_0: u8 = 0x27;

pub const KB_RETURN_ENTER: u8 = 0x28;

pub const KB_ESCAPE: u8 = 0x29;

pub const KB_DELETE_BACKSPACE: u8 = 0x2A;

pub const KB_TAB: u8 = 0x2B;

pub const KB_SPACE: u8 = 0x2C;

pub const KB_MINUS: u8 = 0x2D;

pub const KB_EQUAL: u8 = 0x2E;

pub const KB_LEFT_BRACE: u8 = 0x2F;

pub const KB_RIGHT_BRACE: u8 = 0x30;

pub const KB_BACKSLASH: u8 = 0x31;

pub const KB_SEMICOLON: u8 = 0x33;

pub const KB_APOSTROPHE: u8 = 0x34;

pub const KB_GRAVE: u8 = 0x35;

pub const KB_COMMA: u8 = 0x36;

pub const KB_DOT: u8 = 0x37;

pub const KB_FORWARD_SLASH: u8 = 0x38;

pub const KB_CAPS_LOCK: u8 = 0x39;

pub const KB_F1: u8 = 0x3A;

pub const KB_F2: u8 = 0x3B;

pub const KB_F3: u8 = 0x3C;

pub const KB_F4: u8 = 0x3D;

pub const KB_F5: u8 = 0x3E;

pub const KB_F6: u8 = 0x3F;

pub const KB_F7: u8 = 0x40;

pub const KB_F8: u8 = 0x41;

pub const KB_F9: u8 = 0x42;

pub const KB_F10: u8 = 0x43;

pub const KB_F11: u8 = 0x44;

pub const KB_F12: u8 = 0x45;

pub const KB_PRINT_SCREEN: u8 = 0x46;

pub const KB_HOME: u8 = 0x4A;

pub const KB_PAGE_UP: u8 = 0x4B;

pub const KB_DELETE_FORWARD: u8 = 0x4C;

pub const KB_END: u8 = 0x4D;

pub const KB_PAGE_DOWN: u8 = 0x4E;

pub const KB_RIGHT_ARROW: u8 = 0x4F;

pub const KB_LEFT_ARROW: u8 = 0x50;

pub const KB_DOWN_ARROW: u8 = 0x51;

pub const KB_UP_ARROW: u8 = 0x52;

pub const KB_KEYPAD_NUM_LOCK: u8 = 0x53;

pub const KB_KEYPAD_ENTER: u8 = 0x58;

pub const KB_KEYPAD_1: u8 = 0x59;

pub const KB_KEYPAD_2: u8 = 0x5A;

pub const KB_KEYPAD_3: u8 = 0x5B;

pub const KB_KEYPAD_4: u8 = 0x5C;

pub const KB_KEYPAD_5: u8 = 0x5D;

pub const KB_KEYPAD_6: u8 = 0x5E;

pub const KB_KEYPAD_7: u8 = 0x5F;

pub const KB_KEYPAD_8: u8 = 0x60;

pub const KB_KEYPAD_9: u8 = 0x61;

pub const KB_KEYPAD_0: u8 = 0x62;

pub const KB_KEYPAD_DOT: u8 = 0x63;

pub const KB_CUT: u8 = 0x7B;

pub const KB_COPY: u8 = 0x7C;

pub const KB_PASTE: u8 = 0x7D;

pub const KB_MUTE: u8 = 0x7F;

pub const KB_VOLUME_UP: u8 = 0x80;

pub const KB_VOLUME_DOWN: u8 = 0x81;

pub const KB_LEFT_CONTROL: u8 = 0xE0;

pub const KB_LEFT_SHIFT: u8 = 0xE1;

pub const KB_LEFT_ALT: u8 = 0xE2;

pub const KB_LEFT_GUI: u8 = 0xE3;

pub const KB_RIGHT_SHIFT: u8 = 0xE5;

pub const KB_RIGHT_ALT: u8 = 0xE6;

/// Consumer-page usage: unassigned (the media report's sentinel).
pub const CON_UNASSIGNED: u16 = 0x00;

pub const CON_SCAN_NEXT_TRACK: u16 = 0xB5;

pub const CON_SCAN_PREVIOUS_TRACK: u16 = 0xB6;

pub const CON_PLAY_PAUSE: u16 = 0xCD;

pub const CON_AL_CALCULATOR: u16 = 0x192;

pub const CON_AL_FILE_BROWSER: u16 = 0x194;

pub const CON_AL_INTERNET_BROWSER: u16 = 0x196;

pub const CON_AL_COMMAND_LINE_RUN: u16 = 0x1A0;

/// Number of positions in the left half's matrix.
pub const LEFT_KEY_COUNT: usize = 30;

/// Number of positions in the right half's matrix.
pub const RIGHT_KEY_COUNT: usize = 29;

/// The left half's function-key position: holding it selects left layer 1.
pub const LEFT_FN: usize = 25;

/// The right half's first function-key position (selects right layer 1).
pub const RIGHT_FN_1: usize = 26;

/// The right half's second function-key position (selects right layer 2).
pub const RIGHT_FN_2: usize = 27;

/// The right half's third function-key position (selects right layer 3).
pub const RIGHT_FN_3: usize = 28;

/// The left half's layout table: two layers of thirty output codes.
pub open spec fn left_table() -> Seq<Seq<MultiKey>> {
    seq![
        seq![
            KeyboardKey(KB_ESCAPE),
            KeyboardKey(KB_1),
            KeyboardKey(KB_2),
            KeyboardKey(KB_3),
            KeyboardKey(KB_4),
            KeyboardKey(KB_5),
            KeyboardKey(KB_TAB),
            KeyboardKey(KB_Q),
            KeyboardKey(KB_W),
            KeyboardKey(KB_E),
            KeyboardKey(KB_R),
            KeyboardKey(KB_T),
            KeyboardKey(KB_CAPS_LOCK),
            KeyboardKey(KB_A),
            KeyboardKey(KB_S),
            KeyboardKey(KB_D),
            KeyboardKey(KB_F),
            KeyboardKey(KB_G),
            KeyboardKey(KB_LEFT_SHIFT),
            KeyboardKey(KB_Z),
            KeyboardKey(KB_X),
            KeyboardKey(KB_C),
            KeyboardKey(KB_V),
            KeyboardKey(KB_B),
            KeyboardKey(KB_NO_EVENT),
            KeyboardKey(KB_NO_EVENT),
            KeyboardKey(KB_LEFT_ALT),
            KeyboardKey(KB_LEFT_CONTROL),
            KeyboardKey(KB_SPACE),
            KeyboardKey(KB_LEFT_GUI),
        ],
        seq![
            KeyboardKey(KB_MUTE),
            KeyboardKey(KB_VOLUME_DOWN),
            KeyboardKey(KB_VOLUME_UP),
            ConsumerKey(CON_PLAY_PAUSE),
            ConsumerKey(CON_SCAN_PREVIOUS_TRACK),
            ConsumerKey(CON_SCAN_NEXT_TRACK),
            KeyboardKey(KB_PRINT_SCREEN),
            KeyboardKey(KB_NO_EVENT),
            KeyboardKey(KB_NO_EVENT),
            KeyboardKey(KB_NO_EVENT),
            KeyboardKey(KB_NO_EVENT),
            KeyboardKey(KB_NO_EVENT),
            KeyboardKey(KB_NO_EVENT),
            KeyboardKey(KB_NO_EVENT),
            KeyboardKey(KB_NO_EVENT),
            KeyboardKey(KB_NO_EVENT),
            KeyboardKey(KB_NO_EVENT),
            KeyboardKey(KB_NO_EVENT),
            KeyboardKey(KB_NO_EVENT),
            KeyboardKey(KB_NO_EVENT),
            KeyboardKey(KB_NO_EVENT),
            KeyboardKey(KB_COPY),
            KeyboardKey(KB_PASTE),
            KeyboardKey(KB_CUT),
            KeyboardKey(KB_NO_EVENT),
            KeyboardKey(KB_NO_EVENT),
            KeyboardKey(KB_LEFT_ALT),
            KeyboardKey(KB_KEYPAD_NUM_LOCK),
            KeyboardKey(KB_NO_EVENT),
            KeyboardKey(KB_NO_EVENT),
        ],
    ]
}

/// The right half's layout table: four layers of thirty output codes
/// (the matrix uses the first twenty-nine positions).
pub open spec fn right_table() -> Seq<Seq<MultiKey>> {
    seq![
        seq![
            KeyboardKey(KB_6),
            KeyboardKey(KB_7),
            KeyboardKey(KB_8),
            KeyboardKey(KB_9),
            KeyboardKey(KB_0),
            KeyboardKey(KB_MINUS),
            KeyboardKey(KB_Y),
            KeyboardKey(KB_U),
            KeyboardKey(KB_I),
            KeyboardKey(KB_O),
            KeyboardKey(KB_P),
            KeyboardKey(KB_DELETE_BACKSPACE),
            KeyboardKey(KB_H),
            KeyboardKey(KB_J),
            KeyboardKey(KB_K),
            KeyboardKey(KB_L),
            KeyboardKey(KB_SEMICOLON),
            KeyboardKey(KB_RETURN_ENTER),
            KeyboardKey(KB_N),
            KeyboardKey(KB_M),
            KeyboardKey(KB_COMMA),
            KeyboardKey(KB_DOT),
            KeyboardKey(KB_FORWARD_SLASH),
            KeyboardKey(KB_RIGHT_SHIFT),
            KeyboardKey(KB_RIGHT_ALT),
            KeyboardKey(KB_SPACE),
            KeyboardKey(KB_NO_EVENT),
            KeyboardKey(KB_NO_EVENT),
            KeyboardKey(KB_NO_EVENT),
            KeyboardKey(KB_NO_EVENT),
        ],
        seq![
            KeyboardKey(KB_NO_EVENT),
            KeyboardKey(KB_NO_EVENT),
            KeyboardKey(KB_NO_EVENT),
            KeyboardKey(KB_NO_EVENT),
            KeyboardKey(KB_NO_EVENT),
            KeyboardKey(KB_NO_EVENT),
            KeyboardKey(KB_EQUAL),
            KeyboardKey(KB_BACKSLASH),
            KeyboardKey(KB_LEFT_BRACE),
            KeyboardKey(KB_RIGHT_BRACE),
            KeyboardKey(KB_APOSTROPHE),
            KeyboardKey(KB_DELETE_FORWARD),
            KeyboardKey(KB_GRAVE),
            KeyboardKey(KB_LEFT_ARROW),
            KeyboardKey(KB_DOWN_ARROW),
            KeyboardKey(KB_UP_ARROW),
            KeyboardKey(KB_RIGHT_ARROW),
            KeyboardKey(KB_NO_EVENT),
            KeyboardKey(KB_NO_EVENT),
            KeyboardKey(KB_HOME),
            KeyboardKey(KB_END),
            KeyboardKey(KB_PAGE_UP),
            KeyboardKey(KB_PAGE_DOWN),
            KeyboardKey(KB_NO_EVENT),
            KeyboardKey(KB_NO_EVENT),
            KeyboardKey(KB_NO_EVENT),
            KeyboardKey(KB_NO_EVENT),
            KeyboardKey(KB_NO_EVENT),
            KeyboardKey(KB_NO_EVENT),
            KeyboardKey(KB_NO_EVENT),
        ],
        seq![
            KeyboardKey(KB_NO_EVENT),
            KeyboardKey(KB_NO_EVENT),
            KeyboardKey(KB_NO_EVENT),
            KeyboardKey(KB_NO_EVENT),
            KeyboardKey(KB_NO_EVENT),
            KeyboardKey(KB_NO_EVENT),
            KeyboardKey(KB_NO_EVENT),
            KeyboardKey(KB_KEYPAD_7),
            KeyboardKey(KB_KEYPAD_8),
            KeyboardKey(KB_KEYPAD_9),
            KeyboardKey(KB_NO_EVENT),
            KeyboardKey(KB_NO_EVENT),
            KeyboardKey(KB_NO_EVENT),
            KeyboardKey(KB_KEYPAD_4),
            KeyboardKey(KB_KEYPAD_5),
            KeyboardKey(KB_KEYPAD_6),
            KeyboardKey(KB_KEYPAD_ENTER),
            KeyboardKey(KB_KEYPAD_ENTER),
            KeyboardKey(KB_KEYPAD_0),
            KeyboardKey(KB_KEYPAD_1),
            KeyboardKey(KB_KEYPAD_2),
            KeyboardKey(KB_KEYPAD_3),
            KeyboardKey(KB_KEYPAD_DOT),
            KeyboardKey(KB_NO_EVENT),
            KeyboardKey(KB_NO_EVENT),
            KeyboardKey(KB_NO_EVENT),
            KeyboardKey(KB_NO_EVENT),
            KeyboardKey(KB_NO_EVENT),
            KeyboardKey(KB_NO_EVENT),
            KeyboardKey(KB_NO_EVENT),
        ],
        seq![
            KeyboardKey(KB_F1),
            KeyboardKey(KB_F2),
            KeyboardKey(KB_F3),
            KeyboardKey(KB_F4),
            KeyboardKey(KB_F5),
            KeyboardKey(KB_F6),
            KeyboardKey(KB_F7),
            KeyboardKey(KB_F8),
            KeyboardKey(KB_F9),
            KeyboardKey(KB_F10),
            KeyboardKey(KB_F11),
            KeyboardKey(KB_F12),
            KeyboardKey(KB_NO_EVENT),
            KeyboardKey(KB_NO_EVENT),
            KeyboardKey(KB_NO_EVENT),
            KeyboardKey(KB_NO_EVENT),
            KeyboardKey(KB_NO_EVENT),
            KeyboardKey(KB_NO_EVENT),
            ConsumerKey(CON_AL_CALCULATOR),
            ConsumerKey(CON_AL_FILE_BROWSER),
            ConsumerKey(CON_AL_INTERNET_BROWSER),
            ConsumerKey(CON_AL_COMMAND_LINE_RUN),
            KeyboardKey(KB_NO_EVENT),
            KeyboardKey(KB_NO_EVENT),
            KeyboardKey(KB_NO_EVENT),
            KeyboardKey(KB_NO_EVENT),
            KeyboardKey(KB_NO_EVENT),
            KeyboardKey(KB_NO_EVENT),
            KeyboardKey(KB_NO_EVENT),
            KeyboardKey(KB_NO_EVENT),
        ],
    ]
}

/// Look up the left table's output code for `layer` and matrix `pos`.
pub fn left_key_lookup(layer: usize, pos: usize) -> (k: MultiKey)
    requires
        layer < 2,
        pos < LEFT_KEY_COUNT,
    ensures
        k == left_table()[layer as int][pos as int],
{
    let row: [MultiKey; 30] = if layer == 0 {
        [
            KeyboardKey(KB_ESCAPE),
            KeyboardKey(KB_1),
            KeyboardKey(KB_2),
            KeyboardKey(KB_3),
            KeyboardKey(KB_4),
            KeyboardKey(KB_5),
            KeyboardKey(KB_TAB),
            KeyboardKey(KB_Q),
            KeyboardKey(KB_W),
            KeyboardKey(KB_E),
            KeyboardKey(KB_R),
            KeyboardKey(KB_T),
            KeyboardKey(KB_CAPS_LOCK),
            KeyboardKey(KB_A),
            KeyboardKey(KB_S),
            KeyboardKey(KB_D),
            KeyboardKey(KB_F),
            KeyboardKey(KB_G),
            KeyboardKey(KB_LEFT_SHIFT),
            KeyboardKey(KB_Z),
            KeyboardKey(KB_X),
            KeyboardKey(KB_C),
            KeyboardKey(KB_V),
            KeyboardKey(KB_B),
            KeyboardKey(KB_NO_EVENT),
            KeyboardKey(KB_NO_EVENT),
            KeyboardKey(KB_LEFT_ALT),
            KeyboardKey(KB_LEFT_CONTROL),
            KeyboardKey(KB_SPACE),
            KeyboardKey(KB_LEFT_GUI),
        ]
    } else {
        [
            KeyboardKey(KB_MUTE),
            KeyboardKey(KB_VOLUME_DOWN),
            KeyboardKey(KB_VOLUME_UP),
            ConsumerKey(CON_PLAY_PAUSE),
            ConsumerKey(CON_SCAN_PREVIOUS_TRACK),
            ConsumerKey(CON_SCAN_NEXT_TRACK),
            KeyboardKey(KB_PRINT_SCREEN),
            KeyboardKey(KB_NO_EVENT),
            KeyboardKey(KB_NO_EVENT),
            KeyboardKey(KB_NO_EVENT),
            KeyboardKey(KB_NO_EVENT),
            KeyboardKey(KB_NO_EVENT),
            KeyboardKey(KB_NO_EVENT),
            KeyboardKey(KB_NO_EVENT),
            KeyboardKey(KB_NO_EVENT),
            KeyboardKey(KB_NO_EVENT),
            KeyboardKey(KB_NO_EVENT),
            KeyboardKey(KB_NO_EVENT),
            KeyboardKey(KB_NO_EVENT),
            KeyboardKey(KB_NO_EVENT),
            KeyboardKey(KB_NO_EVENT),
            KeyboardKey(KB_COPY),
            KeyboardKey(KB_PASTE),
            KeyboardKey(KB_CUT),
            KeyboardKey(KB_NO_EVENT),
            KeyboardKey(KB_NO_EVENT),
            KeyboardKey(KB_LEFT_ALT),
            KeyboardKey(KB_KEYPAD_NUM_LOCK),
            KeyboardKey(KB_NO_EVENT),
            KeyboardKey(KB_NO_EVENT),
        ]
    };
    proof {
        if layer == 0 {
            assert(row@ =~= left_table()[0]);
        } else {
            assert(row@ =~= left_table()[1]);
        }
    }
    row[pos]
}

/// Look up the right table's output code for `layer` and matrix `pos`.
pub fn right_key_lookup(layer: usize, pos: usize) -> (k: MultiKey)
    requires
        layer < 4,
        pos < RIGHT_KEY_COUNT,
    ensures
        k == right_table()[layer as int][pos as int],
{
    let row: [MultiKey; 30] = if layer == 0 {
        [
            KeyboardKey(KB_6),
            KeyboardKey(KB_7),
            KeyboardKey(KB_8),
            KeyboardKey(KB_9),
            KeyboardKey(KB_0),
            KeyboardKey(KB_MINUS),
            KeyboardKey(KB_Y),
            KeyboardKey(KB_U),
            KeyboardKey(KB_I),
            KeyboardKey(KB_O),
            KeyboardKey(KB_P),
            KeyboardKey(KB_DELETE_BACKSPACE),
            KeyboardKey(KB_H),
            KeyboardKey(KB_J),
            KeyboardKey(KB_K),
            KeyboardKey(KB_L),
            KeyboardKey(KB_SEMICOLON),
            KeyboardKey(KB_RETURN_ENTER),
            KeyboardKey(KB_N),
            KeyboardKey(KB_M),
            KeyboardKey(KB_COMMA),
            KeyboardKey(KB_DOT),
            KeyboardKey(KB_FORWARD_SLASH),
            KeyboardKey(KB_RIGHT_SHIFT),
            KeyboardKey(KB_RIGHT_ALT),
            KeyboardKey(KB_SPACE),
            KeyboardKey(KB_NO_EVENT),
            KeyboardKey(KB_NO_EVENT),
            KeyboardKey(KB_NO_EVENT),
            KeyboardKey(KB_NO_EVENT),
        ]
    } else if layer == 1 {
        [
            KeyboardKey(KB_NO_EVENT),
            KeyboardKey(KB_NO_EVENT),
            KeyboardKey(KB_NO_EVENT),
            KeyboardKey(KB_NO_EVENT),
            KeyboardKey(KB_NO_EVENT),
            KeyboardKey(KB_NO_EVENT),
            KeyboardKey(KB_EQUAL),
            KeyboardKey(KB_BACKSLASH),
            KeyboardKey(KB_LEFT_BRACE),
            KeyboardKey(KB_RIGHT_BRACE),
            KeyboardKey(KB_APOSTROPHE),
            KeyboardKey(KB_DELETE_FORWARD),
            KeyboardKey(KB_GRAVE),
            KeyboardKey(KB_LEFT_ARROW),
            KeyboardKey(KB_DOWN_ARROW),
            KeyboardKey(KB_UP_ARROW),
            KeyboardKey(KB_RIGHT_ARROW),
            KeyboardKey(KB_NO_EVENT),
            KeyboardKey(KB_NO_EVENT),
            KeyboardKey(KB_HOME),
            KeyboardKey(KB_END),
            KeyboardKey(KB_PAGE_UP),
            KeyboardKey(KB_PAGE_DOWN),
            KeyboardKey(KB_NO_EVENT),
            KeyboardKey(KB_NO_EVENT),
            KeyboardKey(KB_NO_EVENT),
            KeyboardKey(KB_NO_EVENT),
            KeyboardKey(KB_NO_EVENT),
            KeyboardKey(KB_NO_EVENT),
            KeyboardKey(KB_NO_EVENT),
        ]
    } else if layer == 2 {
        [
            KeyboardKey(KB_NO_EVENT),
            KeyboardKey(KB_NO_EVENT),
            KeyboardKey(KB_NO_EVENT),
            KeyboardKey(KB_NO_EVENT),
            KeyboardKey(KB_NO_EVENT),
            KeyboardKey(KB_NO_EVENT),
            KeyboardKey(KB_NO_EVENT),
            KeyboardKey(KB_KEYPAD_7),
            KeyboardKey(KB_KEYPAD_8),
            KeyboardKey(KB_KEYPAD_9),
            KeyboardKey(KB_NO_EVENT),
            KeyboardKey(KB_NO_EVENT),
            KeyboardKey(KB_NO_EVENT),
            KeyboardKey(KB_KEYPAD_4),
            KeyboardKey(KB_KEYPAD_5),
            KeyboardKey(KB_KEYPAD_6),
            KeyboardKey(KB_KEYPAD_ENTER),
            KeyboardKey(KB_KEYPAD_ENTER),
            KeyboardKey(KB_KEYPAD_0),
            KeyboardKey(KB_KEYPAD_1),
            KeyboardKey(KB_KEYPAD_2),
            KeyboardKey(KB_KEYPAD_3),
            KeyboardKey(KB_KEYPAD_DOT),
            KeyboardKey(KB_NO_EVENT),
            KeyboardKey(KB_NO_EVENT),
            KeyboardKey(KB_NO_EVENT),
            KeyboardKey(KB_NO_EVENT),
            KeyboardKey(KB_NO_EVENT),
            KeyboardKey(KB_NO_EVENT),
            KeyboardKey(KB_NO_EVENT),
        ]
    } else {
        [
            KeyboardKey(KB_F1),
            KeyboardKey(KB_F2),
            KeyboardKey(KB_F3),
            KeyboardKey(KB_F4),
            KeyboardKey(KB_F5),
            KeyboardKey(KB_F6),
            KeyboardKey(KB_F7),
            KeyboardKey(KB_F8),
            KeyboardKey(KB_F9),
            KeyboardKey(KB_F10),
            KeyboardKey(KB_F11),
            KeyboardKey(KB_F12),
            KeyboardKey(KB_NO_EVENT),
            KeyboardKey(KB_NO_EVENT),
            KeyboardKey(KB_NO_EVENT),
            KeyboardKey(KB_NO_EVENT),
            KeyboardKey(KB_NO_EVENT),
            KeyboardKey(KB_NO_EVENT),
            ConsumerKey(CON_AL_CALCULATOR),
            ConsumerKey(CON_AL_FILE_BROWSER),
            ConsumerKey(CON_AL_INTERNET_BROWSER),
            ConsumerKey(CON_AL_COMMAND_LINE_RUN),
            KeyboardKey(KB_NO_EVENT),
            KeyboardKey(KB_NO_EVENT),
            KeyboardKey(KB_NO_EVENT),
            KeyboardKey(KB_NO_EVENT),
            KeyboardKey(KB_NO_EVENT),
            KeyboardKey(KB_NO_EVENT),
            KeyboardKey(KB_NO_EVENT),
            KeyboardKey(KB_NO_EVENT),
        ]
    };
    proof {
        if layer == 0 {
            assert(row@ =~= right_table()[0]);
        } else if layer == 1 {
            assert(row@ =~= right_table()[1]);
        } else if layer == 2 {
            assert(row@ =~= right_table()[2]);
        } else {
            assert(row@ =~= right_table()[3]);
        }
    }
    row[pos]
}

/// The left half's active layer: 1 while its function key is held,
/// otherwise 0.
pub open spec fn spec_left_layer(left: Seq<bool>) -> int {
    if left[LEFT_FN as int] {
        1
    } else {
        0
    }
}

/// The right half's own layer choice: its function keys are inspected in
/// priority order, first match wins, defaulting to layer 0.
pub open spec fn spec_right_layer_keys(right: Seq<bool>) -> int {
    if right[RIGHT_FN_1 as int] {
        1
    } else if right[RIGHT_FN_2 as int] {
        2
    } else if right[RIGHT_FN_3 as int] {
        3
    } else {
        0
    }
}

/// Determine the left half's layer from its fresh matrix scan.
pub fn get_left_layer(matrix: &[bool; 30]) -> (layer: usize)
    ensures
        layer == spec_left_layer(matrix@),
{
    if matrix[LEFT_FN] {
        1
    } else {
        0
    }
}

/// Determine the right half's own layer choice from its matrix bits.
pub fn get_right_layer(matrix: &PrimitiveBitset<u32>) -> (layer: usize)
    ensures
        layer == spec_right_layer_keys(matrix@),
{
    if matrix.get(RIGHT_FN_1) {
        1
    } else if matrix.get(RIGHT_FN_2) {
        2
    } else if matrix.get(RIGHT_FN_3) {
        3
    } else {
        0
    }
}

} // verus!
