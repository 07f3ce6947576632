//! Keyboard scancode decoding: the US-layout translation tables and the
//! modifier-key state machine. The port read that fetches the scancode and
//! the delivery of the decoded byte happen outside the library.

use vstd::prelude::*;
use crate::text::push_char;

verus! {

/// The byte a scancode decodes to under the given shift state (the US
/// layout); zero for keys with no character.
pub open spec fn spec_scancode_ascii(code: u8, shifted: bool) -> u8 {
    if shifted {
        match code {
            1 => 27,
            2 => 33,
            3 => 64,
            4 => 35,
            5 => 36,
            6 => 37,
            7 => 94,
            8 => 38,
            9 => 42,
            10 => 40,
            11 => 41,
            12 => 95,
            13 => 43,
            14 => 8,
            15 => 9,
            16 => 81,
            17 => 87,
            18 => 69,
            19 => 82,
            20 => 84,
            21 => 89,
            22 => 85,
            23 => 73,
            24 => 79,
            25 => 80,
            26 => 123,
            27 => 125,
            28 => 10,
            30 => 65,
            31 => 83,
            32 => 68,
            33 => 70,
            34 => 71,
            35 => 72,
            36 => 74,
            37 => 75,
            38 => 76,
            39 => 58,
            40 => 34,
            41 => 126,
            43 => 124,
            44 => 90,
            45 => 88,
            46 => 67,
            47 => 86,
            48 => 66,
            49 => 78,
            50 => 77,
            51 => 60,
            52 => 62,
            53 => 63,
            55 => 42,
            57 => 32,
            _ => 0,
        }
    } else {
        match code {
            1 => 27,
            2 => 49,
            3 => 50,
            4 => 51,
            5 => 52,
            6 => 53,
            7 => 54,
            8 => 55,
            9 => 56,
            10 => 57,
            11 => 48,
            12 => 45,
            13 => 61,
            14 => 8,
            15 => 9,
            16 => 113,
            17 => 119,
            18 => 101,
            19 => 114,
            20 => 116,
            21 => 121,
            22 => 117,
            23 => 105,
            24 => 111,
            25 => 112,
            26 => 91,
            27 => 93,
            28 => 10,
            30 => 97,
            31 => 115,
            32 => 100,
            33 => 102,
            34 => 103,
            35 => 104,
            36 => 106,
            37 => 107,
            38 => 108,
            39 => 59,
            40 => 39,
            41 => 96,
            43 => 92,
            44 => 122,
            45 => 120,
            46 => 99,
            47 => 118,
            48 => 98,
            49 => 110,
            50 => 109,
            51 => 44,
            52 => 46,
            53 => 47,
            55 => 42,
            57 => 32,
            _ => 0,
        }
    }
}

/// Exec mirror of [`spec_scancode_ascii`].
pub fn scancode_ascii(code: u8, shifted: bool) -> (r: u8)
    ensures
        r == spec_scancode_ascii(code, shifted),
{
    if shifted {
        match code {
            1 => 27,
            2 => 33,
            3 => 64,
            4 => 35,
            5 => 36,
            6 => 37,
            7 => 94,
            8 => 38,
            9 => 42,
            10 => 40,
            11 => 41,
            12 => 95,
            13 => 43,
            14 => 8,
            15 => 9,
            16 => 81,
            17 => 87,
            18 => 69,
            19 => 82,
            20 => 84,
            21 => 89,
            22 => 85,
            23 => 73,
            24 => 79,
            25 => 80,
            26 => 123,
            27 => 125,
            28 => 10,
            30 => 65,
            31 => 83,
            32 => 68,
            33 => 70,
            34 => 71,
            35 => 72,
            36 => 74,
            37 => 75,
            38 => 76,
            39 => 58,
            40 => 34,
            41 => 126,
            43 => 124,
            44 => 90,
            45 => 88,
            46 => 67,
            47 => 86,
            48 => 66,
            49 => 78,
            50 => 77,
            51 => 60,
            52 => 62,
            53 => 63,
            55 => 42,
            57 => 32,
            _ => 0,
        }
    } else {
        match code {
            1 => 27,
            2 => 49,
            3 => 50,
            4 => 51,
            5 => 52,
            6 => 53,
            7 => 54,
            8 => 55,
            9 => 56,
            10 => 57,
            11 => 48,
            12 => 45,
            13 => 61,
            14 => 8,
            15 => 9,
            16 => 113,
            17 => 119,
            18 => 101,
            19 => 114,
            20 => 116,
            21 => 121,
            22 => 117,
            23 => 105,
            24 => 111,
            25 => 112,
            26 => 91,
            27 => 93,
            28 => 10,
            30 => 97,
            31 => 115,
            32 => 100,
            33 => 102,
            34 => 103,
            35 => 104,
            36 => 106,
            37 => 107,
            38 => 108,
            39 => 59,
            40 => 39,
            41 => 96,
            43 => 92,
            44 => 122,
            45 => 120,
            46 => 99,
            47 => 118,
            48 => 98,
            49 => 110,
            50 => 109,
            51 => 44,
            52 => 46,
            53 => 47,
            55 => 42,
            57 => 32,
            _ => 0,
        }
    }
}

/// What one scancode produces for the shell.
#[derive(Clone, Copy, PartialEq, Eq, Structural, Debug)]
pub enum KeyEvent {
    /// Nothing to deliver: a modifier change, a release, or a dead key.
    Nothing,
    /// One decoded input byte.
    Char(u8),
    /// The interrupt combination; the shell receives a line break.
    ControlC,
}

/// Modifier-key state of the keyboard.
#[derive(Clone, Copy, PartialEq, Eq, Structural, Debug)]
pub struct KeyboardState {
    pub shift: bool,
    pub ctrl: bool,
}

impl KeyboardState {
    /// Keyboard with no modifier held.
    pub fn new() -> (r: Self)
        ensures
            r.shift == false,
            r.ctrl == false,
    {
        KeyboardState { shift: false, ctrl: false }
    }

    /// Decode one scancode: press and release of the modifier keys update the
    /// state; a press below 128 yields its character under the current shift
    /// state, with control-c singled out; everything else yields nothing.
    pub fn handle_scancode(&mut self, code: u8) -> (r: KeyEvent)
        ensures
            final(self).shift == (if code == 0x2A || code == 0x36 {
                true
            } else if code == 0xAA || code == 0xB6 {
                false
            } else {
                old(self).shift
            }),
            final(self).ctrl == (if code == 0x1D {
                true
            } else if code == 0x9D {
                false
            } else {
                old(self).ctrl
            }),
            r == (if code == 0x2A || code == 0x36 || code == 0x1D || code == 0xAA || code == 0xB6
                || code == 0x9D || code >= 128 {
                KeyEvent::Nothing
            } else if spec_scancode_ascii(code, old(self).shift) == 0 {
                KeyEvent::Nothing
            } else if old(self).ctrl && spec_scancode_ascii(code, old(self).shift) == 99 {
                KeyEvent::ControlC
            } else {
                KeyEvent::Char(spec_scancode_ascii(code, old(self).shift))
            }),
    {
        match code {
            0x2A | 0x36 => {
                self.shift = true;
                KeyEvent::Nothing
            },
            0x1D => {
                self.ctrl = true;
                KeyEvent::Nothing
            },
            0xAA | 0xB6 => {
                self.shift = false;
                KeyEvent::Nothing
            },
            0x9D => {
                self.ctrl = false;
                KeyEvent::Nothing
            },
            key if key < 128 => {
                let ascii = scancode_ascii(key, self.shift);
                if ascii == 0 {
                    KeyEvent::Nothing
                } else if self.ctrl && ascii == 99 {
                    KeyEvent::ControlC
                } else {
                    KeyEvent::Char(ascii)
                }
            },
            _ => KeyEvent::Nothing,
        }
    }
}

/// What the serial echo of one decoded byte looks like: a line break echoes a
/// line break, a backspace rubs the character out, printable bytes echo
/// themselves, anything else stays silent.
pub open spec fn spec_char_echo(c: u8) -> Seq<char> {
    if c == 10 {
        seq!['\n']
    } else if c == 8 {
        seq!['\u{8}', ' ', '\u{8}']
    } else if 32 <= c <= 126 {
        seq![c as char]
    } else {
        seq![]
    }
}

/// Exec mirror of [`spec_char_echo`]: the text echoed to the serial port for
/// one decoded byte.
pub fn print_char_serial(c: u8) -> (r: String)
    ensures
        r@ == spec_char_echo(c),
{
    let mut s = String::new();
    if c == 10 {
        push_char(&mut s, '\n');
    } else if c == 8 {
        push_char(&mut s, '\u{8}');
        push_char(&mut s, ' ');
        push_char(&mut s, '\u{8}');
    } else if 32 <= c && c <= 126 {
        push_char(&mut s, c as char);
    }
    proof {
        assert(s@ =~= spec_char_echo(c));
    }
    s
}

} // verus!
