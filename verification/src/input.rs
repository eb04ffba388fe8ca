//! Commands produced from key presses.
//!
//! The input layer outside this crate reads one character from the keyboard
//! and hands it to [`cursor_input`], which turns it into the abstract command
//! the rest of the model consumes. The model never sees raw key codes.

use vstd::prelude::*;

verus! {

/// One abstract command: a cursor move, a paint action, an overlay toggle,
/// a color selection, or quit. `NONE` stands for a key press that maps to
/// no command.
#[allow(non_camel_case_types)]
#[derive(Clone, Copy, PartialEq, Eq, Structural, Debug)]
pub enum KEY {
    NONE,
    W,
    S,
    A,
    D,
    FILE,
    HELP,
    PLACE,
    ERASE,
    QUIT,
    C1,
    C2,
    C3,
    C4,
    C5,
    C6,
    C7,
    C8,
    C9,
    C0,
}

/// The command a given character stands for: `w`/`W` moves up, `s`/`S` down,
/// `a`/`A` left, `d`/`D` right, `f`/`F` opens the file menu, `h`/`H` the help
/// overlay, `p`/`P` places, `e`/`E` erases, `q`/`Q` quits, and the digits
/// select a palette color. Everything else is `NONE`.
pub open spec fn spec_key_of_char(ch: char) -> KEY {
    if ch == 'w' || ch == 'W' {
        KEY::W
    } else if ch == 's' || ch == 'S' {
        KEY::S
    } else if ch == 'a' || ch == 'A' {
        KEY::A
    } else if ch == 'd' || ch == 'D' {
        KEY::D
    } else if ch == 'f' || ch == 'F' {
        KEY::FILE
    } else if ch == 'h' || ch == 'H' {
        KEY::HELP
    } else if ch == 'p' || ch == 'P' {
        KEY::PLACE
    } else if ch == 'e' || ch == 'E' {
        KEY::ERASE
    } else if ch == 'q' || ch == 'Q' {
        KEY::QUIT
    } else if ch == '1' {
        KEY::C1
    } else if ch == '2' {
        KEY::C2
    } else if ch == '3' {
        KEY::C3
    } else if ch == '4' {
        KEY::C4
    } else if ch == '5' {
        KEY::C5
    } else if ch == '6' {
        KEY::C6
    } else if ch == '7' {
        KEY::C7
    } else if ch == '8' {
        KEY::C8
    } else if ch == '9' {
        KEY::C9
    } else if ch == '0' {
        KEY::C0
    } else {
        KEY::NONE
    }
}

/// Turn the character read from the keyboard into a command. A read that
/// produced no character (a function key, a failed read) yields `NONE`.
pub fn cursor_input(ch: Option<char>) -> (key: KEY)
    ensures
        key == match ch {
            Some(c) => spec_key_of_char(c),
            None => KEY::NONE,
        },
{
    match ch {
        None => KEY::NONE,
        Some(c) => match c {
            'w' | 'W' => KEY::W,
            's' | 'S' => KEY::S,
            'a' | 'A' => KEY::A,
            'd' | 'D' => KEY::D,
            'f' | 'F' => KEY::FILE,
            'h' | 'H' => KEY::HELP,
            'p' | 'P' => KEY::PLACE,
            'e' | 'E' => KEY::ERASE,
            'q' | 'Q' => KEY::QUIT,
            '1' => KEY::C1,
            '2' => KEY::C2,
            '3' => KEY::C3,
            '4' => KEY::C4,
            '5' => KEY::C5,
            '6' => KEY::C6,
            '7' => KEY::C7,
            '8' => KEY::C8,
            '9' => KEY::C9,
            '0' => KEY::C0,
            _ => KEY::NONE,
        },
    }
}

/// The palette code a color-selection command carries: `C1` through `C9`
/// select codes 1 through 9, `C0` selects code 0. Other commands select
/// nothing.
pub open spec fn spec_color_code_of_key(key: KEY) -> Option<u32> {
    match key {
        KEY::C1 => Some(1u32),
        KEY::C2 => Some(2u32),
        KEY::C3 => Some(3u32),
        KEY::C4 => Some(4u32),
        KEY::C5 => Some(5u32),
        KEY::C6 => Some(6u32),
        KEY::C7 => Some(7u32),
        KEY::C8 => Some(8u32),
        KEY::C9 => Some(9u32),
        KEY::C0 => Some(0u32),
        _ => None,
    }
}

/// Executable counterpart of [`spec_color_code_of_key`].
pub fn color_code_of_key(key: KEY) -> (code: Option<u32>)
    ensures
        code == spec_color_code_of_key(key),
{
    match key {
        KEY::C1 => Some(1u32),
        KEY::C2 => Some(2u32),
        KEY::C3 => Some(3u32),
        KEY::C4 => Some(4u32),
        KEY::C5 => Some(5u32),
        KEY::C6 => Some(6u32),
        KEY::C7 => Some(7u32),
        KEY::C8 => Some(8u32),
        KEY::C9 => Some(9u32),
        KEY::C0 => Some(0u32),
        _ => None,
    }
}

} // verus!
