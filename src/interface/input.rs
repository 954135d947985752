//! Keyboard layout of the keypad and the host loop's commands.
use vstd::prelude::*;

verus! {

/// What the host loop does after polling its input.
#[derive(Debug, Clone, Copy, PartialEq, Eq, Structural)]
pub enum Command {
    Continue,
    Quit,
}

/// The keypad index of a host key, on the usual layout of the 4x4 pad
/// over the keys `1234`, `QWER`, `ASDF`, `ZXCV` (letters in either case):
///
/// ```text
/// 1 2 3 C        1 2 3 4
/// 4 5 6 D   <-   Q W E R
/// 7 8 9 E        A S D F
/// A 0 B F        Z X C V
/// ```
pub open spec fn keymap_spec(k: char) -> Option<u8> {
    if k == '1' { Some(0x1u8) }
    else if k == '2' { Some(0x2u8) }
    else if k == '3' { Some(0x3u8) }
    else if k == '4' { Some(0xCu8) }
    else if (k == 'q' || k == 'Q') { Some(0x4u8) }
    else if (k == 'w' || k == 'W') { Some(0x5u8) }
    else if (k == 'e' || k == 'E') { Some(0x6u8) }
    else if (k == 'r' || k == 'R') { Some(0xDu8) }
    else if (k == 'a' || k == 'A') { Some(0x7u8) }
    else if (k == 's' || k == 'S') { Some(0x8u8) }
    else if (k == 'd' || k == 'D') { Some(0x9u8) }
    else if (k == 'f' || k == 'F') { Some(0xEu8) }
    else if (k == 'z' || k == 'Z') { Some(0xAu8) }
    else if (k == 'x' || k == 'X') { Some(0x0u8) }
    else if (k == 'c' || k == 'C') { Some(0xBu8) }
    else if (k == 'v' || k == 'V') { Some(0xFu8) }
    else { None }
}

/// The keypad index of host key `k`, or `None` for a key off the pad.
pub fn keymap(k: char) -> (r: Option<u8>)
    ensures
        r == keymap_spec(k),
        r matches Some(i) ==> i < 16,
{
    if k == '1' { Some(0x1) }
    else if k == '2' { Some(0x2) }
    else if k == '3' { Some(0x3) }
    else if k == '4' { Some(0xC) }
    else if (k == 'q' || k == 'Q') { Some(0x4) }
    else if (k == 'w' || k == 'W') { Some(0x5) }
    else if (k == 'e' || k == 'E') { Some(0x6) }
    else if (k == 'r' || k == 'R') { Some(0xD) }
    else if (k == 'a' || k == 'A') { Some(0x7) }
    else if (k == 's' || k == 'S') { Some(0x8) }
    else if (k == 'd' || k == 'D') { Some(0x9) }
    else if (k == 'f' || k == 'F') { Some(0xE) }
    else if (k == 'z' || k == 'Z') { Some(0xA) }
    else if (k == 'x' || k == 'X') { Some(0x0) }
    else if (k == 'c' || k == 'C') { Some(0xB) }
    else if (k == 'v' || k == 'V') { Some(0xF) }
    else { None }
}

} // verus!
